use phosphor::beam::{same_channel, sample_channel, BeamSample, SampleConsumer};
use phosphor::beam_write::BeamParams;
use phosphor::binary32::Binary32;
use phosphor::composite::{CompositeParams, TonemapMode};
use phosphor::controls::{
    dispatch_sim_commands, sync_gpu_params, AudioUiState, DisplayParams, EngineerState, UiState, VectorUiState,
    Viewport, STANDING_COMMANDS,
};
use phosphor::database::{build_phosphor, PhosphorData, PhosphorType};
use phosphor::faceplate_scatter::FaceplateScatterParams;
use phosphor::simulation::SimCommand;
use phosphor::types::{InputMode, PanelTab, Resolution};

fn b(v: f32) -> Binary32 {
    Binary32::from_bits(v.to_bits())
}

fn f(v: Binary32) -> f32 {
    f32::from_bits(v.to_bits())
}

fn phosphor(designation: &str) -> PhosphorType {
    let data = PhosphorData {
        description: "Test phosphor.".to_string(),
        category: "general_purpose".to_string(),
        dual_layer: false,
        peak_nm: b(520.0),
        fwhm_nm: Some(b(40.0)),
        spectrum_csv: None,
        decay_terms: vec![],
        relative_luminance: b(50.0),
        relative_writing_speed: b(60.0),
        fluorescence: None,
        phosphorescence: None,
    };
    build_phosphor(designation, &data, [b(0.0625); 16], [b(0.0625); 16]).unwrap()
}

fn controls() -> UiState {
    UiState::new(vec![phosphor("P1"), phosphor("P7"), phosphor("P31")], b(300.0))
}

fn viewport() -> Viewport {
    Viewport {
        width: b(724.0),
        height: b(768.0),
        x_offset: b(300.0),
    }
}

fn display_params() -> DisplayParams {
    DisplayParams {
        beam_params: BeamParams::new(b(0.0), b(0.0), b(0.0), 800, 600).with_sample_count(9),
        faceplate_scatter_params: FaceplateScatterParams::default(),
        composite_params: CompositeParams::new(b(0.0), TonemapMode::Clamp),
    }
}

fn scaled(width: Binary32, scale: Binary32) -> Binary32 {
    b(f(width) * f(scale))
}

fn scaled_dimension(size: u32, scale: Binary32) -> u32 {
    (size as f32 * f(scale)).round().max(1.0) as u32
}

#[test]
fn controls_start_at_their_defaults() {
    let ui = controls();
    assert_eq!(ui.phosphor_index, 0);
    assert_eq!(ui.selected_phosphor().designation, "P1");
    assert_eq!((f(ui.intensity), f(ui.focus), f(ui.panel_width)), (1.0, 1.5, 300.0));
    assert_eq!(ui.input_mode, InputMode::Oscilloscope);
    assert_eq!(ui.tab, PanelTab::Scope);
    assert!(ui.panel_visible && ui.accum_size.is_none());

    let eng = EngineerState::default();
    assert_eq!((f(eng.sigma_core), f(eng.sigma_halo), f(eng.halo_fraction)), (1.5, 6.0, 0.03));
    assert_eq!((f(eng.space_charge), f(eng.accel_voltage)), (0.0, 10.0));
    assert_eq!(
        (f(eng.scatter_threshold), f(eng.scatter_sigma), f(eng.scatter_intensity)),
        (0.5, 4.0, 0.15)
    );
    assert_eq!(eng.tonemap_mode, TonemapMode::Reinhard);
    assert_eq!((f(eng.exposure), f(eng.white_point)), (1.0, 1.0));
    assert_eq!(eng.glass_tint.map(f), [0.92, 0.95, 0.92]);
    assert_eq!((f(eng.curvature), f(eng.edge_falloff), f(eng.accum_resolution_scale)), (0.0, 0.0, 1.0));

    let audio = AudioUiState::default();
    assert!(!audio.playing && !audio.looping && !audio.has_file && audio.pending_file.is_none());
    assert_eq!(f(audio.speed), 1.0);
    let vector = VectorUiState::default();
    assert!(vector.looping && vector.pending_file.is_none());
    assert_eq!((vector.segment_count, f(vector.beam_speed), f(vector.settling_time)), (0, 1.0, 0.001));
}

#[test]
fn phosphor_change_is_told_once() {
    let mut ui = controls();
    assert!(!ui.phosphor_changed());
    ui.phosphor_index = 2;
    assert_eq!(ui.selected_phosphor().designation, "P31");
    assert!(ui.phosphor_changed());
    assert!(!ui.phosphor_changed());
    ui.phosphor_index = 0;
    assert!(ui.phosphor_changed());
    assert!(!ui.phosphor_changed());
}

#[test]
fn parameters_follow_the_controls() {
    let mut ui = controls();
    ui.focus = b(2.0);
    ui.intensity = b(3.0);
    ui.engineer.accum_resolution_scale = b(0.5);
    ui.engineer.tonemap_mode = TonemapMode::Aces;
    ui.engineer.curvature = b(0.25);
    ui.engineer.edge_falloff = b(0.75);
    let mut params = display_params();
    let resize = sync_gpu_params(
        &mut params,
        &ui,
        Resolution::new(1024, 768),
        Resolution::new(800, 600),
        scaled,
        scaled_dimension,
    );
    assert_eq!(resize, Some(Resolution::new(512, 384)));
    assert_eq!(f(params.beam_params.sigma_core), 1.0);
    assert_eq!(f(params.beam_params.sigma_halo), 3.0);
    assert_eq!(f(params.beam_params.halo_fraction), 0.03);
    assert_eq!((params.beam_params.sample_count, params.beam_params.width), (9, 800));
    assert_eq!(f(params.faceplate_scatter_params.threshold), 0.5);
    assert_eq!(f(params.faceplate_scatter_params.sigma), 2.0);
    assert_eq!(f(params.faceplate_scatter_params.intensity), 0.15);
    assert_eq!(f(params.composite_params.exposure), 3.0);
    assert_eq!(params.composite_params.mode(), TonemapMode::Aces);
    assert_eq!(f(params.composite_params.faceplate_scatter_intensity), 0.15);
    assert_eq!(params.composite_params.glass_tint.map(f), [0.92, 0.95, 0.92]);
    assert_eq!(f(params.composite_params.curvature), 0.25);
    assert_eq!(f(params.composite_params.edge_falloff), 0.75);

    let same = sync_gpu_params(
        &mut params,
        &ui,
        Resolution::new(1024, 768),
        Resolution::new(512, 384),
        scaled,
        scaled_dimension,
    );
    assert_eq!(same, None);
}

#[test]
fn settings_are_sent_every_frame_in_order() {
    let mut ui = controls();
    ui.input_mode = InputMode::Audio;
    ui.audio_ui.playing = true;
    ui.audio_ui.speed = b(0.5);
    let mut rate = ui.oscilloscope.sample_rate;
    let mut consumer: Option<SampleConsumer> = None;
    for _ in 0..2 {
        let commands = dispatch_sim_commands(&mut ui, viewport(), 44100, &mut rate, &mut consumer);
        assert_eq!(commands.len(), STANDING_COMMANDS);
        assert!(matches!(commands[0], SimCommand::SetInputMode(InputMode::Audio)));
        assert!(matches!(&commands[1], SimCommand::SetOscilloscopeParams(s) if *s == ui.oscilloscope));
        assert!(matches!(commands[2], SimCommand::SetFocus(v) if f(v) == 1.5));
        match commands[3] {
            SimCommand::SetViewport { width, height, x_offset } => {
                assert_eq!((f(width), f(height), f(x_offset)), (724.0, 768.0, 300.0));
            }
            _ => panic!("expected SetViewport"),
        }
        assert!(matches!(commands[4], SimCommand::SetAudioPlaying(true)));
        assert!(matches!(commands[5], SimCommand::SetAudioLooping(false)));
        assert!(matches!(commands[6], SimCommand::SetAudioSpeed(v) if f(v) == 0.5));
    }
    assert!(consumer.is_none());
    assert_eq!(f(rate), 44100.0);
}

#[test]
fn pending_files_are_sent_once() {
    let mut ui = controls();
    ui.audio_ui.pending_file = Some("song.flac".to_string());
    ui.vector_ui.pending_file = Some("logo.json".to_string());
    let mut rate = ui.oscilloscope.sample_rate;
    let mut consumer = None;
    let commands = dispatch_sim_commands(&mut ui, viewport(), 44100, &mut rate, &mut consumer);
    assert_eq!(commands.len(), STANDING_COMMANDS + 2);
    assert!(matches!(&commands[7], SimCommand::LoadAudioFile(p) if p == "song.flac"));
    assert!(matches!(&commands[8], SimCommand::LoadVectorFile(p) if p == "logo.json"));
    assert_eq!(ui.audio_ui.file_path.as_deref(), Some("song.flac"));
    assert!(ui.audio_ui.has_file && ui.audio_ui.pending_file.is_none());
    assert_eq!(ui.vector_ui.file_path.as_deref(), Some("logo.json"));
    assert!(ui.vector_ui.pending_file.is_none());

    let again = dispatch_sim_commands(&mut ui, viewport(), 44100, &mut rate, &mut consumer);
    assert_eq!(again.len(), STANDING_COMMANDS);
    assert_eq!(ui.audio_ui.file_path.as_deref(), Some("song.flac"));

    ui.vector_ui.pending_file = Some("other.json".to_string());
    let third = dispatch_sim_commands(&mut ui, viewport(), 44100, &mut rate, &mut consumer);
    assert_eq!(third.len(), STANDING_COMMANDS + 1);
    assert!(matches!(&third[7], SimCommand::LoadVectorFile(p) if p == "other.json"));
}

#[test]
fn sample_rate_change_makes_a_new_channel() {
    let mut ui = controls();
    let (old_producer, old_consumer) = sample_channel(4);
    let mut rate = ui.oscilloscope.sample_rate;
    let mut consumer = Some(old_consumer);
    ui.oscilloscope.sample_rate = b(96000.0);
    let mut commands = dispatch_sim_commands(&mut ui, viewport(), 96000, &mut rate, &mut consumer);
    assert_eq!(commands.len(), STANDING_COMMANDS + 1);
    assert_eq!(f(rate), 96000.0);
    match commands.pop().unwrap() {
        SimCommand::SetSampleRate { rate, mut producer } => {
            assert_eq!(f(rate), 96000.0);
            assert!(same_channel(&producer, consumer.as_ref().unwrap()));
            assert!(!same_channel(&old_producer, consumer.as_ref().unwrap()));
            // One and a half seconds at 96 kHz, rounded up to a power of two.
            let samples = vec![BeamSample::default(); 300_000];
            assert_eq!(producer.push_bulk(&samples), 262_144);
            // The two halves belong together.
            assert_eq!(consumer.as_mut().unwrap().pending(), 262_144);
        }
        _ => panic!("expected SetSampleRate"),
    }

    // The same rate again changes nothing.
    let commands = dispatch_sim_commands(&mut ui, viewport(), 96000, &mut rate, &mut consumer);
    assert_eq!(commands.len(), STANDING_COMMANDS);
    assert_eq!(consumer.as_mut().unwrap().pending(), 262_144);
}

#[test]
fn rate_without_a_channel_changes_nothing() {
    let mut ui = controls();
    let mut rate = ui.oscilloscope.sample_rate;
    let mut consumer = None;
    ui.oscilloscope.sample_rate = b(1e30);
    let commands = dispatch_sim_commands(&mut ui, viewport(), usize::MAX, &mut rate, &mut consumer);
    assert_eq!(commands.len(), STANDING_COMMANDS);
    assert_eq!(f(rate), 44100.0);
    assert!(consumer.is_none());
}
