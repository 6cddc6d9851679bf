use phosphor::beam::{BeamSample, BeamState};
use phosphor::binary32::Binary32;
use phosphor::vector::{VectorSegment, VectorSource};

fn b(v: f32) -> Binary32 {
    Binary32::from_bits(v.to_bits())
}

fn f(v: Binary32) -> f32 {
    f32::from_bits(v.to_bits())
}

fn segment(x0: f32, y0: f32, x1: f32, y1: f32, intensity: f32) -> VectorSegment {
    VectorSegment {
        x0: b(x0),
        y0: b(y0),
        x1: b(x1),
        y1: b(y1),
        intensity: b(intensity),
    }
}

fn test_beam() -> BeamState {
    BeamState { spot_radius: b(0.001) }
}

/// Whether `next` starts away from where `prev` ended.
fn jumps(prev: VectorSegment, next: VectorSegment) -> bool {
    let dx = f(next.x0) - f(prev.x1);
    let dy = f(next.y0) - f(prev.y1);
    dx.abs() > 1e-6 || dy.abs() > 1e-6
}

/// Samples along a segment, no further apart than the spot radius.
fn subdivide(seg: VectorSegment, beam_speed: Binary32, beam: BeamState) -> Vec<BeamSample> {
    let dx = f(seg.x1) - f(seg.x0);
    let dy = f(seg.y1) - f(seg.y0);
    let length = (dx * dx + dy * dy).sqrt();
    let steps = ((length / f(beam.spot_radius)).ceil() as usize).max(2);
    let dt = length / (f(beam_speed) * steps as f32);
    (0..steps)
        .map(|i| {
            let t = (i as f32 + 0.5) / steps as f32;
            BeamSample {
                x: b(f(seg.x0) + dx * t),
                y: b(f(seg.y0) + dy * t),
                intensity: seg.intensity,
                dt: b(dt),
            }
        })
        .collect()
}

fn generate(src: &VectorSource) -> Vec<BeamSample> {
    src.generate(&test_beam(), jumps, subdivide)
}

#[test]
fn single_segment_produces_samples_along_line() {
    let src = VectorSource {
        segments: vec![segment(0.0, 0.0, 1.0, 0.0, 1.0)],
        beam_speed: b(1.0),
        settling_time: b(0.001),
    };
    let samples = generate(&src);
    assert!(!samples.is_empty());
    for s in &samples {
        if f(s.intensity) > 0.0 {
            assert!(f(s.y).abs() < 0.01);
            assert!(f(s.x) >= 0.0 && f(s.x) <= 1.0);
        }
    }
}

#[test]
fn disconnected_segments_have_blanked_retrace() {
    let src = VectorSource {
        segments: vec![segment(0.0, 0.0, 0.5, 0.0, 1.0), segment(0.5, 0.5, 1.0, 0.5, 1.0)],
        beam_speed: b(1.0),
        settling_time: b(0.001),
    };
    let samples = generate(&src);
    assert!(samples.iter().any(|s| f(s.intensity) == 0.0));
}

#[test]
fn connected_segments_have_no_retrace() {
    let src = VectorSource {
        segments: vec![segment(0.0, 0.0, 0.5, 0.5, 1.0), segment(0.5, 0.5, 1.0, 0.0, 1.0)],
        beam_speed: b(1.0),
        settling_time: b(0.001),
    };
    let samples = generate(&src);
    assert!(samples.iter().all(|s| f(s.intensity) > 0.0));
}

#[test]
fn longer_segments_produce_more_samples() {
    let short_src = VectorSource {
        segments: vec![segment(0.0, 0.0, 0.1, 0.0, 1.0)],
        beam_speed: b(1.0),
        settling_time: b(0.0),
    };
    let long_src = VectorSource {
        segments: vec![segment(0.0, 0.0, 1.0, 0.0, 1.0)],
        beam_speed: b(1.0),
        settling_time: b(0.0),
    };
    assert!(generate(&long_src).len() > generate(&short_src).len());
}

#[test]
fn retrace_sits_at_the_start_of_the_next_segment() {
    let first = segment(0.0, 0.0, 0.002, 0.0, 1.0);
    let second = segment(0.5, 0.25, 0.502, 0.25, 2.0);
    let third = segment(0.502, 0.25, 0.504, 0.25, 3.0);
    let src = VectorSource {
        segments: vec![first, second, third],
        beam_speed: b(1.0),
        settling_time: b(0.125),
    };
    let samples = generate(&src);
    let mut expected = subdivide(first, b(1.0), test_beam());
    expected.push(BeamSample {
        x: b(0.5),
        y: b(0.25),
        intensity: b(0.0),
        dt: b(0.125),
    });
    expected.extend(subdivide(second, b(1.0), test_beam()));
    expected.extend(subdivide(third, b(1.0), test_beam()));
    assert_eq!(samples, expected);
}

#[test]
fn empty_list_draws_nothing() {
    let src = VectorSource {
        segments: vec![],
        beam_speed: b(1.0),
        settling_time: b(0.001),
    };
    assert!(generate(&src).is_empty());
}
