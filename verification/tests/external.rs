use phosphor::beam::BeamSample;
use phosphor::binary32::Binary32;
use phosphor::external::{parse_line, Command, ExternalSource};

fn b(v: f32) -> Binary32 {
    Binary32::from_bits(v.to_bits())
}

fn number(text: &str) -> f32 {
    text.parse().unwrap()
}

/// The fields of a beam command as numbers.
fn beam(cmd: &Command) -> (f32, f32, f32, f32) {
    match cmd {
        Command::Beam { x, y, intensity, dt } => (number(x), number(y), number(intensity), number(dt)),
        other => panic!("expected Beam command, got {other:?}"),
    }
}

fn f(v: Binary32) -> f32 {
    f32::from_bits(v.to_bits())
}

/// The samples of a command: a beam command is its sample, a segment is
/// subdivided so that its samples lie within one spot radius of each other.
fn render(command: Command) -> Vec<BeamSample> {
    const SPOT_RADIUS: f32 = 0.001;
    const BEAM_SPEED: f32 = 1.0;
    match command {
        Command::Beam { x, y, intensity, dt } => vec![BeamSample {
            x: b(number(&x)),
            y: b(number(&y)),
            intensity: b(number(&intensity)),
            dt: b(number(&dt)),
        }],
        Command::Segment {
            x0,
            y0,
            x1,
            y1,
            intensity,
        } => {
            let (x0, y0) = (number(&x0), number(&y0));
            let (dx, dy) = (number(&x1) - x0, number(&y1) - y0);
            let length = (dx * dx + dy * dy).sqrt();
            let steps = ((length / SPOT_RADIUS).ceil() as usize).max(2);
            let dt = length / (BEAM_SPEED * steps as f32);
            (0..steps)
                .map(|i| {
                    let t = (i as f32 + 0.5) / steps as f32;
                    BeamSample {
                        x: b(x0 + dx * t),
                        y: b(y0 + dy * t),
                        intensity: b(number(&intensity)),
                        dt: b(dt),
                    }
                })
                .collect()
        }
        Command::FrameSync => Vec::new(),
    }
}

fn lines(texts: &[&str]) -> Vec<String> {
    texts.iter().map(|t| t.to_string()).collect()
}

#[test]
fn parse_beam_command() {
    let cmd = parse_line("B 0.5 0.75 1.0 0.001").unwrap().unwrap();
    match cmd {
        Command::Beam { x, y, intensity, dt } => {
            assert!((number(&x) - 0.5).abs() < f32::EPSILON);
            assert!((number(&y) - 0.75).abs() < f32::EPSILON);
            assert!((number(&intensity) - 1.0).abs() < f32::EPSILON);
            assert!((number(&dt) - 0.001).abs() < f32::EPSILON);
        }
        _ => panic!("expected Beam command"),
    }
}

#[test]
fn parse_comment_returns_none() {
    assert!(parse_line("# this is a comment").unwrap().is_none());
}

#[test]
fn parse_empty_line_returns_none() {
    assert!(parse_line("").unwrap().is_none());
    assert!(parse_line("   ").unwrap().is_none());
}

#[test]
fn parse_frame_sync() {
    let cmd = parse_line("F").unwrap().unwrap();
    assert!(matches!(cmd, Command::FrameSync));
}

#[test]
fn parse_invalid_returns_error() {
    assert!(parse_line("X garbage").is_err());
    assert!(parse_line("B only_two 0.5").is_err());
}

#[test]
fn parse_segment_command() {
    let cmd = parse_line("L 0.0 0.0 1.0 0.0 1.0").unwrap().unwrap();
    assert!(matches!(cmd, Command::Segment { .. }));
}

#[test]
fn generate_processes_beam_lines() {
    let mut src = ExternalSource::new(b(1.0));
    src.push_lines(lines(&["B 0.5 0.75 1.0 0.001", "B 0.25 0.25 0.5 0.002"]));
    let samples = src.generate(render);
    assert_eq!(samples.len(), 2);
    assert!((f(samples[0].x) - 0.5).abs() < f32::EPSILON);
    assert!((f(samples[1].x) - 0.25).abs() < f32::EPSILON);
}

#[test]
fn generate_subdivides_segments() {
    let mut src = ExternalSource::new(b(1.0));
    src.push_lines(lines(&["L 0.0 0.0 1.0 0.0 1.0"]));
    let samples = src.generate(render);
    assert!(!samples.is_empty());
    for s in &samples {
        assert!(f(s.y).abs() < 0.01);
    }
    assert_eq!(samples.len(), 1000);
}

#[test]
fn generate_stops_at_frame_sync() {
    let mut src = ExternalSource::new(b(1.0));
    src.push_lines(lines(&["B 0.1 0.1 1.0 0.001", "F", "B 0.9 0.9 1.0 0.001"]));
    let first_frame = src.generate(render);
    assert_eq!(first_frame.len(), 1);
    assert!((f(first_frame[0].x) - 0.1).abs() < f32::EPSILON);

    let second_frame = src.generate(render);
    assert_eq!(second_frame.len(), 1);
    assert!((f(second_frame[0].x) - 0.9).abs() < f32::EPSILON);
}

#[test]
fn generate_skips_comments_and_blanks() {
    let mut src = ExternalSource::new(b(1.0));
    src.push_lines(lines(&["# header comment", "", "B 0.5 0.5 1.0 0.001", "   "]));
    let samples = src.generate(render);
    assert_eq!(samples.len(), 1);
}

#[test]
fn two_frames_of_one_sample_each() {
    let mut src = ExternalSource::new(b(1.0));
    let text = "B 0.5 0.75 1.0 0.001\nF\nB 0.9 0.9 1.0 0.001";
    src.push_lines(text.lines().map(|l| l.to_string()).collect());
    let first = src.generate(render);
    assert_eq!(first.len(), 1);
    assert_eq!(
        (f(first[0].x), f(first[0].y), f(first[0].intensity), f(first[0].dt)),
        (0.5, 0.75, 1.0, 0.001)
    );
    let second = src.generate(render);
    assert_eq!(second.len(), 1);
    assert_eq!(
        (f(second[0].x), f(second[0].y), f(second[0].intensity), f(second[0].dt)),
        (0.9, 0.9, 1.0, 0.001)
    );
    assert!(src.generate(render).is_empty());
    assert_eq!(src.waiting(), 0);
}

#[test]
fn unknown_lines_are_passed_over_in_a_frame() {
    let mut src = ExternalSource::new(b(2.0));
    src.push_lines(lines(&["Z 1 2", "B 1 2", "B 0.1 0.2 0.3 0.4", "F", "F", "B 1 2 3 4"]));
    assert_eq!(src.waiting(), 6);
    let first = src.next_frame();
    assert_eq!(first.len(), 1);
    assert_eq!(beam(&first[0]), (0.1, 0.2, 0.3, 0.4));
    assert_eq!(src.waiting(), 2);
    assert!(src.next_frame().is_empty());
    assert_eq!(src.waiting(), 1);
    assert_eq!(beam(&src.next_frame()[0]), (1.0, 2.0, 3.0, 4.0));
    src.push_lines(lines(&["B 5 6 7 8"]));
    assert_eq!(beam(&src.next_frame()[0]), (5.0, 6.0, 7.0, 8.0));
    assert_eq!(f32::from_bits(src.beam_speed.to_bits()), 2.0);
}

#[test]
fn numbers_are_handed_out_as_written() {
    match parse_line("  B\t-1.5e-3   +.5 7. NaN trailing words  ").unwrap().unwrap() {
        Command::Beam { x, y, intensity, dt } => {
            assert_eq!((x.as_str(), y.as_str(), intensity.as_str(), dt.as_str()), ("-1.5e-3", "+.5", "7.", "NaN"));
        }
        other => panic!("expected Beam command, got {other:?}"),
    }
    match parse_line("L inf INFINITY Infinity 1E+2 0x").unwrap().unwrap() {
        Command::Segment { x0, y0, x1, y1, intensity } => {
            assert_eq!(
                (x0.as_str(), y0.as_str(), x1.as_str(), y1.as_str(), intensity.as_str()),
                ("inf", "INFINITY", "Infinity", "1E+2", "0")
            );
        }
        other => panic!("expected Segment command, got {other:?}"),
    }
}

#[test]
fn every_number_text_is_a_number() {
    for text in ["0", "-0", "+1", "1.", ".5", "1.5", "1e5", "1.e5", "1.5E-5", "nan", "NAN", "inf", "Inf", "infinity", "iNfInItY", "00012", "1e+0"] {
        let line = format!("B {text} {text} {text} {text}");
        match parse_line(&line).unwrap().unwrap() {
            Command::Beam { x, .. } => {
                assert_eq!(x, text);
                assert!(x.parse::<f32>().is_ok(), "{text}");
            }
            other => panic!("expected Beam command, got {other:?}"),
        }
    }
}

#[test]
fn malformed_numbers_fail_the_line() {
    for line in [
        "B",
        "B0 0 0 0",
        "B 1 2 3",
        "B 1 2 3 x",
        "B 1 2 3 .",
        "B 1 2 3 -",
        "B 1 2 3 e5",
        "B 1 2 3 1e",
        "B 1 2 3 1e+",
        "B 1 2 3 -inf",
        "B 1 2 3 +nan",
        "B 1,2,3,4",
        "B 1 2 3\u{a0}4",
        "b 1 2 3 4",
        "L 1 2 3 4",
        "l 1 2 3 4 5",
        "f",
        "X",
        "X garbage",
        "Foo",
        "Frame",
        "FF",
        "F1",
        "F#",
        "FB 1 2 3 4",
    ] {
        let err = parse_line(line).unwrap_err();
        assert_eq!(err.line, line.trim(), "{line:?}");
        assert_eq!(err.message(), format!("unknown command: {}", line.trim()));
    }
}

#[test]
fn what_follows_a_command_is_not_looked_at() {
    assert!(matches!(parse_line("F and more").unwrap(), Some(Command::FrameSync)));
    assert!(matches!(parse_line("F\tF").unwrap(), Some(Command::FrameSync)));
    assert!(matches!(parse_line("B 1 2 3 4x").unwrap(), Some(Command::Beam { .. })));
    assert!(matches!(parse_line("B 1 2 3 4 5 6").unwrap(), Some(Command::Beam { .. })));
    assert!(matches!(parse_line("L 1 2 3 4 5#c").unwrap(), Some(Command::Segment { .. })));
    // A number that breaks off in its exponent is no number.
    assert!(parse_line("B 1 2 3 4e").is_err());
}

#[test]
fn white_space_around_a_line_does_not_count() {
    assert!(parse_line("\t \u{3000}").unwrap().is_none());
    assert!(parse_line("\u{2003}# comment").unwrap().is_none());
    assert!(matches!(parse_line(" \r\n F \r\n").unwrap(), Some(Command::FrameSync)));
    assert!(matches!(parse_line("\u{a0}B 1 2 3 4\u{a0}").unwrap(), Some(Command::Beam { .. })));
}

#[test]
fn samples_come_in_the_order_of_the_commands() {
    let mut src = ExternalSource::new(b(1.0));
    src.push_lines(lines(&[
        "B 0.1 0.1 1 0.001",
        "L 0.2 0.2 0.2015 0.2 2",
        "garbage",
        "B 0.3 0.3 3 0.001",
        "F",
        "B 0.4 0.4 4 0.001",
    ]));
    let samples = src.generate(render);
    let intensities: Vec<f32> = samples.iter().map(|s| f(s.intensity)).collect();
    assert_eq!(intensities, [1.0, 2.0, 2.0, 3.0]);
    assert_eq!(src.waiting(), 1);
    let commands = src.next_frame();
    assert_eq!(beam(&commands[0]), (0.4, 0.4, 4.0, 0.001));
}

#[test]
fn frame_sync_is_a_whole_word() {
    for line in ["F", " F ", "F x", "F\t", "F\u{a0}x", "F\r\nB 1 2 3 4", "F  # end of frame"] {
        assert!(matches!(parse_line(line), Ok(Some(Command::FrameSync))), "{line:?}");
    }
    for line in ["Foo", "Frame", "FF", "F.", "F-", "F_", "F0", "Fx y"] {
        let err = parse_line(line).unwrap_err();
        assert_eq!(err.line, line);
        assert_eq!(err.message(), format!("unknown command: {line}"));
    }
    // An unknown verb does not end a frame.
    let mut src = ExternalSource::new(b(1.0));
    src.push_lines(lines(&["B 0.1 0.1 1.0 0.001", "Frame", "B 0.9 0.9 1.0 0.001", "F", "B 0.5 0.5 1.0 0.001"]));
    let frame = src.next_frame();
    assert_eq!(frame.len(), 2);
}
