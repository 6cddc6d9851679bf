use phosphor::beam::{sample_channel, BeamSample};
use phosphor::binary32::Binary32;
use phosphor::oscilloscope::{ChannelConfig, OscilloscopeSource, OscilloscopeState, Waveform, WAVEFORM_COUNT};
use phosphor::resample::{arc_length_resample, Advance, ResampleState};
use phosphor::simulation::{
    aspect_correction, map_samples, normalize_batch, AspectCorrection, AudioFrame, AudioPlan, AudioSource,
    AudioState, BatchSource, CommandEffect, InputState, SimCommand, SimState, VectorState,
    BEAM_ENERGY_SCALE_BITS,
};
use phosphor::types::{ExternalMode, ExternalState, InputMode, PanelTab, Resolution};
use phosphor::vector::VectorSegment;

fn b(v: f32) -> Binary32 {
    Binary32::from_bits(v.to_bits())
}

fn f(v: Binary32) -> f32 {
    f32::from_bits(v.to_bits())
}

fn bits(values: &[f32]) -> Vec<Binary32> {
    values.iter().map(|v| b(*v)).collect()
}

/// Left and right in `[-1, 1]` to a lit sample in `[0, 1]`.
fn to_sample(frame: AudioFrame) -> BeamSample {
    BeamSample {
        x: b((f(frame.left) + 1.0) / 2.0),
        y: b((f(frame.right) + 1.0) / 2.0),
        intensity: b(1.0),
        dt: b(1.0 / 44100.0),
    }
}

fn stereo() -> AudioSource {
    AudioSource::from_interleaved(&bits(&[-1.0, 1.0, 0.0, 0.0, 1.0, -1.0, 0.5, -0.5]), 2, 44100)
}

fn segment() -> VectorSegment {
    VectorSegment {
        x0: b(0.0),
        y0: b(0.0),
        x1: b(1.0),
        y1: b(1.0),
        intensity: b(1.0),
    }
}

#[test]
fn audio_source_maps_lr_to_xy() {
    let mut src = stereo();
    let samples = src.generate(4, to_sample);
    assert_eq!(samples.len(), 4);
    assert!((f(samples[0].x) - 0.0).abs() < 1e-6);
    assert!((f(samples[0].y) - 1.0).abs() < 1e-6);
    assert!((f(samples[1].x) - 0.5).abs() < 1e-6);
    assert!((f(samples[1].y) - 0.5).abs() < 1e-6);
    assert!((f(samples[2].x) - 1.0).abs() < 1e-6);
    assert!((f(samples[2].y) - 0.0).abs() < 1e-6);
}

#[test]
fn audio_source_dt_matches_sample_rate() {
    let mut src = stereo();
    assert_eq!(src.sample_rate(), 44100);
    for s in src.generate(4, to_sample) {
        assert!((f(s.dt) - 1.0 / 44100.0).abs() < 1e-9);
    }
}

#[test]
fn audio_source_seek() {
    let mut src = stereo();
    src.generate(4, to_sample);
    assert!(src.is_finished());
    src.seek_to(0);
    assert!(!src.is_finished());
    assert_eq!(src.position(), 0);
    src.seek_to(2);
    assert_eq!(src.generate(10, to_sample).len(), 2);
    src.seek_to(99);
    assert_eq!(src.position(), 4);
    assert!(src.is_finished());
}

#[test]
fn audio_plays_in_pieces_until_the_end() {
    let mut src = stereo();
    assert_eq!(src.frame_count(), 4);
    let first = src.generate(3, to_sample);
    assert_eq!(first.len(), 3);
    assert_eq!(src.position(), 3);
    assert!(!src.is_finished());
    let rest = src.generate(3, to_sample);
    assert_eq!(rest.len(), 1);
    assert_eq!(f(rest[0].x), 0.75);
    assert!(src.is_finished());
    assert!(src.generate(3, to_sample).is_empty());
    assert!(src.generate(0, to_sample).is_empty());
}

#[test]
fn channels_are_taken_apart_by_their_number() {
    let mono = AudioSource::from_interleaved(&bits(&[0.25, -0.5]), 1, 8000);
    let mut mono = mono;
    let s = mono.generate(2, to_sample);
    assert_eq!((f(s[0].x), f(s[0].y)), (0.625, 0.625));
    assert_eq!((f(s[1].x), f(s[1].y)), (0.25, 0.25));

    // Of four channels the first two count; the broken last frame is left out.
    let mut wide = AudioSource::from_interleaved(&bits(&[1.0, -1.0, 9.0, 9.0, 0.0, 0.5, 9.0, 9.0, 1.0, 1.0]), 4, 8000);
    assert_eq!(wide.frame_count(), 2);
    let s = wide.generate(5, to_sample);
    assert_eq!((f(s[0].x), f(s[0].y)), (1.0, 0.0));
    assert_eq!((f(s[1].x), f(s[1].y)), (0.5, 0.75));

    assert_eq!(AudioSource::from_interleaved(&[], 2, 8000).frame_count(), 0);
    assert_eq!(AudioSource::from_interleaved(&bits(&[1.0]), 2, 8000).frame_count(), 0);
}

#[test]
fn audio_loops_or_stops_at_the_end() {
    let mut audio = AudioState::default();
    assert_eq!(audio.plan(), AudioPlan::Silent);
    assert_eq!(f(audio.speed), 1.0);
    audio.source = Some(stereo());
    assert_eq!(audio.plan(), AudioPlan::Silent);
    audio.playing = true;
    assert_eq!(audio.plan(), AudioPlan::Play);

    audio.source.as_mut().unwrap().generate(2, to_sample);
    audio.after_batch();
    assert!(audio.playing);
    assert_eq!(audio.source.as_ref().unwrap().position(), 2);

    audio.source.as_mut().unwrap().generate(2, to_sample);
    audio.after_batch();
    assert!(!audio.playing);
    assert_eq!(audio.source.as_ref().unwrap().position(), 4);

    audio.playing = true;
    audio.looping = true;
    audio.after_batch();
    assert!(audio.playing);
    assert_eq!(audio.source.as_ref().unwrap().position(), 0);

    let mut empty = AudioState::default();
    empty.playing = true;
    empty.after_batch();
    assert!(empty.playing);
}

#[test]
fn defaults_are_the_circle_preset() {
    let osc = OscilloscopeState::default();
    assert_eq!(osc.x_waveform, Waveform::Sine);
    assert_eq!((f(osc.x_frequency), f(osc.x_amplitude), f(osc.x_phase), f(osc.x_dc_offset)), (100.0, 0.4, 0.0, 0.0));
    assert_eq!(f(osc.y_phase), std::f32::consts::FRAC_PI_2);
    assert_eq!(f(osc.sample_rate), 44100.0);
    let channel = ChannelConfig::default();
    assert_eq!(channel, osc.x_channel());
    assert_eq!(ChannelConfig { phase: osc.y_phase, ..channel }, osc.y_channel());

    let vector = VectorState::default();
    assert!(vector.segments.is_empty() && vector.looping);
    assert_eq!((f(vector.beam_speed), f(vector.settling_time)), (1.0, 0.001));

    let external = ExternalState::default();
    assert_eq!(external.mode, ExternalMode::Stdin);
    assert!(external.socket_path.is_empty() && !external.connected);

    assert_eq!(InputMode::default(), InputMode::Oscilloscope);
    assert_eq!(ExternalMode::default(), ExternalMode::Stdin);
    assert_eq!(PanelTab::default(), PanelTab::Scope);
    assert_eq!(Waveform::default(), Waveform::Sine);
    assert_eq!(BEAM_ENERGY_SCALE_BITS, 5000.0f32.to_bits());

    let sim = SimState::new();
    assert_eq!((f(sim.focus), f(sim.viewport_width), f(sim.viewport_height)), (1.5, 800.0, 600.0));
    assert_eq!(f(sim.sample_rate), 44100.0);
    assert_eq!(sim.input.mode, InputMode::Oscilloscope);
    assert_eq!(f(sim.input.osc_source.t_current), 0.0);
    assert_eq!(sim.input.osc_source.x_channel, osc.x_channel());
    assert_eq!(sim.input.osc_source.y_channel, osc.y_channel());
}

#[test]
fn waveforms_are_listed_and_named() {
    let all: Vec<Waveform> = (0..WAVEFORM_COUNT).map(|i| Waveform::from_index(i).unwrap()).collect();
    assert_eq!(all, [Waveform::Sine, Waveform::Triangle, Waveform::Square, Waveform::Sawtooth]);
    assert_eq!(Waveform::from_index(4), None);
    let names: Vec<&str> = all.iter().map(|w| w.label()).collect();
    assert_eq!(names, ["Sine", "Triangle", "Square", "Sawtooth"]);
}

#[test]
fn generator_keeps_its_time_when_the_settings_change() {
    let mut src = OscilloscopeSource::new(ChannelConfig::default(), ChannelConfig::default(), b(1000.0));
    assert_eq!(f(src.t_current), 0.0);
    src.t_current = b(2.5);
    let mut state = OscilloscopeState::default();
    state.x_waveform = Waveform::Square;
    state.y_frequency = b(3.0);
    state.sample_rate = b(48000.0);
    src.sync_params(&state);
    assert_eq!(src.x_channel.waveform, Waveform::Square);
    assert_eq!(f(src.y_channel.frequency), 3.0);
    assert_eq!(f(src.y_channel.phase), std::f32::consts::FRAC_PI_2);
    assert_eq!(f(src.sample_rate), 48000.0);
    assert_eq!(f(src.t_current), 2.5);
}

#[test]
fn batch_source_follows_the_input_mode() {
    let mut input = InputState::default();
    assert_eq!(input.begin_batch(b(48000.0), 0), BatchSource::Silent);
    assert_eq!(f(input.osc_source.sample_rate), 48000.0);
    input.oscilloscope.x_waveform = Waveform::Sawtooth;
    assert_eq!(input.begin_batch(b(96000.0), 44), BatchSource::Oscilloscope);
    assert_eq!(input.osc_source.x_channel.waveform, Waveform::Sawtooth);
    assert_eq!(f(input.osc_source.sample_rate), 96000.0);

    input.mode = InputMode::Audio;
    assert_eq!(input.begin_batch(b(1.0), 44), BatchSource::Silent);
    assert_eq!(f(input.osc_source.sample_rate), 96000.0);
    input.audio_loaded("a.wav".to_string(), Ok(stereo()));
    assert_eq!(input.begin_batch(b(1.0), 44), BatchSource::Audio);
    input.audio.playing = false;
    assert_eq!(input.begin_batch(b(1.0), 44), BatchSource::Silent);

    input.mode = InputMode::Vector;
    assert_eq!(input.begin_batch(b(1.0), 44), BatchSource::Silent);
    input.vector_loaded("v.json".to_string(), Ok(vec![segment()]));
    assert_eq!(input.begin_batch(b(1.0), 0), BatchSource::Vector);

    input.mode = InputMode::External;
    assert_eq!(input.begin_batch(b(1.0), 44), BatchSource::External);
    assert_eq!(input.begin_batch(b(1.0), 0), BatchSource::External);
}

#[test]
fn load_results_replace_or_report() {
    let mut input = InputState::default();
    input.audio_loaded("a.wav".to_string(), Ok(stereo()));
    assert!(input.audio.playing);
    assert_eq!(input.audio.file_path.as_deref(), Some("a.wav"));
    assert!(input.audio.load_error.is_none());
    input.audio_loaded("b.wav".to_string(), Err("no audio track found".to_string()));
    assert!(input.audio.source.is_none());
    assert_eq!(input.audio.file_path.as_deref(), Some("a.wav"));
    assert_eq!(input.audio.load_error.as_deref(), Some("no audio track found"));
    assert!(input.audio.playing);

    input.vector_loaded("v.json".to_string(), Ok(vec![segment(), segment()]));
    assert_eq!(input.vector.segments.len(), 2);
    assert_eq!(input.vector.file_path.as_deref(), Some("v.json"));
    input.vector_loaded("w.json".to_string(), Err("expected value".to_string()));
    assert!(input.vector.segments.is_empty());
    assert_eq!(input.vector.file_path.as_deref(), Some("v.json"));
    assert_eq!(input.vector.load_error.as_deref(), Some("expected value"));
    input.vector_loaded("x.json".to_string(), Ok(vec![segment()]));
    assert!(input.vector.load_error.is_none());
}

#[test]
fn commands_change_the_state_or_come_back_as_effects() {
    let mut sim = SimState::new();
    assert!(matches!(sim.apply_command(SimCommand::SetInputMode(InputMode::Vector)), CommandEffect::Done));
    assert_eq!(sim.input.mode, InputMode::Vector);

    let mut params = OscilloscopeState::default();
    params.x_frequency = b(7.0);
    assert!(matches!(sim.apply_command(SimCommand::SetOscilloscopeParams(params)), CommandEffect::Done));
    assert_eq!(f(sim.input.oscilloscope.x_frequency), 7.0);

    assert!(matches!(sim.apply_command(SimCommand::SetFocus(b(2.0))), CommandEffect::Done));
    assert_eq!(f(sim.focus), 2.0);

    let viewport = SimCommand::SetViewport {
        width: b(1024.0),
        height: b(768.0),
        x_offset: b(300.0),
    };
    assert!(matches!(sim.apply_command(viewport), CommandEffect::Done));
    assert_eq!((f(sim.viewport_width), f(sim.viewport_height)), (1024.0, 768.0));

    assert!(matches!(sim.apply_command(SimCommand::SetAudioPlaying(true)), CommandEffect::Done));
    assert!(matches!(sim.apply_command(SimCommand::SetAudioLooping(true)), CommandEffect::Done));
    assert!(matches!(sim.apply_command(SimCommand::SetAudioSpeed(b(0.5))), CommandEffect::Done));
    assert!(sim.input.audio.playing && sim.input.audio.looping);
    assert_eq!(f(sim.input.audio.speed), 0.5);

    match sim.apply_command(SimCommand::LoadAudioFile("song.flac".to_string())) {
        CommandEffect::LoadAudio(path) => assert_eq!(path, "song.flac"),
        _ => panic!("expected LoadAudio"),
    }
    match sim.apply_command(SimCommand::LoadVectorFile("logo.json".to_string())) {
        CommandEffect::LoadVector(path) => assert_eq!(path, "logo.json"),
        _ => panic!("expected LoadVector"),
    }
    assert!(sim.input.audio.source.is_none());

    let (producer, mut consumer) = sample_channel(4);
    let rate = SimCommand::SetSampleRate {
        rate: b(96000.0),
        producer,
    };
    match sim.apply_command(rate) {
        CommandEffect::SwapProducer(mut p) => {
            assert!(p.push(BeamSample::default()));
            assert_eq!(consumer.pending(), 1);
        }
        _ => panic!("expected SwapProducer"),
    }
    assert_eq!(f(sim.sample_rate), 96000.0);

    assert!(matches!(sim.apply_command(SimCommand::Shutdown), CommandEffect::Shutdown));
    assert_eq!(f(sim.focus), 2.0);
    assert_eq!(sim.input.mode, InputMode::Vector);
}

#[test]
fn resolution_reads_as_width_by_height() {
    let r = Resolution::new(800, 600);
    assert_eq!((r.width, r.height), (800, 600));
    assert_eq!(r.label(), "800\u{d7}600");
    assert_eq!(Resolution::new(0, u32::MAX).label(), "0\u{d7}4294967295");
    assert_eq!(r.pixels(), 480_000);
}

fn lit(x: f32, y: f32) -> BeamSample {
    BeamSample {
        x: b(x),
        y: b(y),
        intensity: b(1.0),
        dt: b(0.001),
    }
}

fn advance(state: ResampleState, s: BeamSample) -> Advance {
    let dx = f(s.x) - f(state.prev_x);
    let dy = f(s.y) - f(state.prev_y);
    Advance {
        dist: b(f(state.accum_dist) + (dx * dx + dy * dy).sqrt()),
        energy: b(f(state.accum_energy) + f(s.intensity) * f(s.dt)),
    }
}

fn normalized(samples: &[BeamSample], aspect: f32, threshold: f32) -> Vec<BeamSample> {
    normalize_batch(
        samples.to_vec(),
        b(aspect),
        b(threshold),
        |mut s: BeamSample| {
            s.x = b(0.5 + (f(s.x) - 0.5) / aspect);
            s
        },
        |mut s: BeamSample| {
            s.y = b(0.5 + (f(s.y) - 0.5) * aspect);
            s
        },
        advance,
        |mut s: BeamSample| {
            s.intensity = b(f(s.intensity) * 5000.0);
            s
        },
    )
}

#[test]
fn aspect_decides_which_axis_is_compressed() {
    assert_eq!(aspect_correction(b(1.5)), AspectCorrection::CompressX);
    assert_eq!(aspect_correction(b(f32::INFINITY)), AspectCorrection::CompressX);
    assert_eq!(aspect_correction(b(0.75)), AspectCorrection::CompressY);
    assert_eq!(aspect_correction(b(0.0)), AspectCorrection::CompressY);
    assert_eq!(aspect_correction(b(-2.0)), AspectCorrection::CompressY);
    assert_eq!(aspect_correction(b(1.0)), AspectCorrection::Keep);
    assert_eq!(aspect_correction(b(f32::NAN)), AspectCorrection::Keep);
}

#[test]
fn batch_is_corrected_resampled_and_scaled_in_that_order() {
    // On a wide viewport two samples 0.4 apart end up 0.2 apart, which is
    // under the threshold: the second is merged into the final flush.
    let samples = [lit(0.3, 0.5), lit(0.7, 0.5)];
    let wide = normalized(&samples, 2.0, 0.3);
    assert_eq!(wide.len(), 2);
    assert_eq!((f(wide[0].x), f(wide[0].y)), (0.4, 0.5));
    assert_eq!((f(wide[0].intensity), f(wide[0].dt)), (5000.0, 0.001));
    assert_eq!((f(wide[1].x), f(wide[1].y)), (0.6, 0.5));
    assert_eq!((f(wide[1].intensity), f(wide[1].dt)), (5.0, 1.0));

    // On a square viewport they stay 0.4 apart, over the threshold: the
    // second becomes a deposit of its own and nothing is left to flush.
    let square = normalized(&samples, 1.0, 0.3);
    assert_eq!(square.len(), 2);
    assert_eq!((f(square[1].x), f(square[1].intensity), f(square[1].dt)), (0.7, 5.0, 1.0));

    // On a high viewport it is y that is drawn in.
    let high = normalized(&[lit(0.5, 0.1), lit(0.5, 0.9)], 0.5, 0.0);
    assert_eq!((f(high[0].x), f(high[0].y)), (0.5, 0.3));
    assert_eq!((f(high[1].x), f(high[1].y)), (0.5, 0.7));
    assert_eq!(f(high[1].intensity), 5000.0);

    assert!(normalized(&[], 2.0, 0.3).is_empty());
}

#[test]
fn normalizing_is_the_three_steps_one_after_another() {
    let samples: Vec<BeamSample> = (0..50).map(|i| lit(0.1 + i as f32 * 0.01, 0.5)).collect();
    let corrected = map_samples(&samples, |mut s: BeamSample| {
        s.x = b(0.5 + (f(s.x) - 0.5) / 1.25);
        s
    });
    let merged = arc_length_resample(&corrected, b(0.05), advance);
    let scaled = map_samples(&merged, |mut s: BeamSample| {
        s.intensity = b(f(s.intensity) * 5000.0);
        s
    });
    assert_eq!(normalized(&samples, 1.25, 0.05), scaled);
    assert!(scaled.len() < samples.len());
}
