//! What the controls hold, and how it reaches the renderer and the sample
//! producer once per frame.
//!
//! The controls keep their own copies of the input settings; the sample
//! producer owns the real ones. Every frame the copies are sent over as
//! commands, in a fixed order, and the producer applies them in the order
//! in which they were sent. A change of the sample rate makes a new
//! channel: its producer half travels with the command, and the renderer
//! takes the consumer half in the same turn, so that exactly one pair is in
//! use at any time.

use vstd::prelude::*;
use crate::beam::{try_sample_channel, BeamSample, SampleConsumer, SAMPLE_BYTES};
use crate::beam_write::BeamParams;
use crate::binary32::{Binary32, ONE_BITS};
use crate::composite::{CompositeParams, TonemapMode};
use crate::database::PhosphorType;
use crate::faceplate_scatter::FaceplateScatterParams;
use crate::oscilloscope::OscilloscopeState;
use crate::pacing::{lemma_ring_capacity, ring_capacity, ring_capacity_spec};
use crate::simulation::{SimCommand, DEFAULT_FOCUS_BITS, DEFAULT_SETTLING_TIME_BITS};
use crate::types::{ExternalMode, ExternalState, InputMode, PanelTab, Resolution};

verus! {

/// The encoding of `6.0`, the default halo width in pixels.
pub const DEFAULT_SIGMA_HALO_BITS: u32 = 0x40c0_0000;

/// The encoding of `0.03`, the default share of the halo.
pub const DEFAULT_HALO_FRACTION_BITS: u32 = 0x3cf5_c28f;

/// The encoding of `10.0`, the default accelerating voltage in kilovolts.
pub const DEFAULT_ACCEL_VOLTAGE_BITS: u32 = 0x4120_0000;

/// The settings of the engineer's panel.
#[derive(Clone, Copy, Debug)]
pub struct EngineerState {
    pub sigma_core: Binary32,
    pub sigma_halo: Binary32,
    pub halo_fraction: Binary32,
    pub space_charge: Binary32,
    pub accel_voltage: Binary32,
    pub scatter_threshold: Binary32,
    pub scatter_sigma: Binary32,
    pub scatter_intensity: Binary32,
    pub tonemap_mode: TonemapMode,
    pub exposure: Binary32,
    pub white_point: Binary32,
    pub glass_tint: [Binary32; 3],
    pub curvature: Binary32,
    pub edge_falloff: Binary32,
    /// Size of the internal buffers relative to the swapchain.
    pub accum_resolution_scale: Binary32,
}

impl Default for EngineerState {
    /// A core of 1.5 and a halo of 6 pixels carrying 3% of the energy, the
    /// scatter at threshold 0.5, width 4 and weight 0.15, Reinhard at unit
    /// exposure, the faint green glass, and buffers at swapchain size.
    fn default() -> (s: Self)
        ensures
            s.sigma_core.bits == DEFAULT_FOCUS_BITS,
            s.sigma_halo.bits == DEFAULT_SIGMA_HALO_BITS,
            s.halo_fraction.bits == DEFAULT_HALO_FRACTION_BITS,
            s.space_charge.bits == 0,
            s.accel_voltage.bits == DEFAULT_ACCEL_VOLTAGE_BITS,
            s.scatter_threshold.bits == crate::faceplate_scatter::DEFAULT_THRESHOLD_BITS,
            s.scatter_sigma.bits == crate::faceplate_scatter::DEFAULT_SIGMA_BITS,
            s.scatter_intensity.bits == crate::faceplate_scatter::DEFAULT_INTENSITY_BITS,
            s.tonemap_mode == TonemapMode::Reinhard,
            s.exposure.bits == ONE_BITS,
            s.white_point.bits == ONE_BITS,
            s.glass_tint@ == seq![
                Binary32 { bits: crate::composite::DEFAULT_TINT_RED_BITS },
                Binary32 { bits: crate::composite::DEFAULT_TINT_GREEN_BITS },
                Binary32 { bits: crate::composite::DEFAULT_TINT_BLUE_BITS },
            ],
            s.curvature.bits == 0,
            s.edge_falloff.bits == 0,
            s.accum_resolution_scale.bits == ONE_BITS,
    {
        let scatter = FaceplateScatterParams::default();
        let s = EngineerState {
            sigma_core: Binary32::from_bits(DEFAULT_FOCUS_BITS),
            sigma_halo: Binary32::from_bits(DEFAULT_SIGMA_HALO_BITS),
            halo_fraction: Binary32::from_bits(DEFAULT_HALO_FRACTION_BITS),
            space_charge: Binary32::zero(),
            accel_voltage: Binary32::from_bits(DEFAULT_ACCEL_VOLTAGE_BITS),
            scatter_threshold: scatter.threshold,
            scatter_sigma: scatter.sigma,
            scatter_intensity: scatter.intensity,
            tonemap_mode: TonemapMode::Reinhard,
            exposure: Binary32::one(),
            white_point: Binary32::one(),
            glass_tint: [
                Binary32::from_bits(crate::composite::DEFAULT_TINT_RED_BITS),
                Binary32::from_bits(crate::composite::DEFAULT_TINT_GREEN_BITS),
                Binary32::from_bits(crate::composite::DEFAULT_TINT_BLUE_BITS),
            ],
            curvature: Binary32::zero(),
            edge_falloff: Binary32::zero(),
            accum_resolution_scale: Binary32::one(),
        };
        assert(s.glass_tint@ =~= seq![
            Binary32 { bits: crate::composite::DEFAULT_TINT_RED_BITS },
            Binary32 { bits: crate::composite::DEFAULT_TINT_GREEN_BITS },
            Binary32 { bits: crate::composite::DEFAULT_TINT_BLUE_BITS },
        ]);
        s
    }
}

/// What a frame drew, for the engineer's panel.
#[derive(Clone, Copy, Debug, PartialEq, Eq, Structural)]
pub struct SimFrameInfo {
    pub samples_this_frame: usize,
    pub sim_dt: Binary32,
    pub buffer_pending: usize,
}

/// The controls' copy of the audio settings.
#[derive(Clone, Debug)]
pub struct AudioUiState {
    pub file_path: Option<String>,
    pub playing: bool,
    pub looping: bool,
    pub speed: Binary32,
    pub has_file: bool,
    pub load_error: Option<String>,
    /// A file that was picked and has not been sent to the producer yet.
    pub pending_file: Option<String>,
}

impl Default for AudioUiState {
    /// No file, stopped, at normal speed.
    fn default() -> (s: Self)
        ensures
            s.file_path is None,
            !s.playing,
            !s.looping,
            s.speed.bits == ONE_BITS,
            !s.has_file,
            s.load_error is None,
            s.pending_file is None,
    {
        AudioUiState {
            file_path: None,
            playing: false,
            looping: false,
            speed: Binary32::one(),
            has_file: false,
            load_error: None,
            pending_file: None,
        }
    }
}

/// The controls' copy of the display list settings.
#[derive(Clone, Debug)]
pub struct VectorUiState {
    pub file_path: Option<String>,
    pub segment_count: usize,
    pub beam_speed: Binary32,
    pub settling_time: Binary32,
    pub looping: bool,
    pub load_error: Option<String>,
    /// A file that was picked and has not been sent to the producer yet.
    pub pending_file: Option<String>,
}

impl Default for VectorUiState {
    /// No file, unit speed, a millisecond of settling, looping.
    fn default() -> (s: Self)
        ensures
            s.file_path is None,
            s.segment_count == 0,
            s.beam_speed.bits == ONE_BITS,
            s.settling_time.bits == DEFAULT_SETTLING_TIME_BITS,
            s.looping,
            s.load_error is None,
            s.pending_file is None,
    {
        VectorUiState {
            file_path: None,
            segment_count: 0,
            beam_speed: Binary32::one(),
            settling_time: Binary32::from_bits(DEFAULT_SETTLING_TIME_BITS),
            looping: true,
            load_error: None,
            pending_file: None,
        }
    }
}

/// Everything that the controls hold.
pub struct UiState {
    pub phosphors: Vec<PhosphorType>,
    pub phosphor_index: usize,
    pub prev_phosphor_index: usize,
    /// Display brightness, which is the exposure of the composite.
    pub intensity: Binary32,
    /// Beam focus in pixels, which is the width of the beam's core.
    pub focus: Binary32,
    pub engineer: EngineerState,
    pub input_mode: InputMode,
    pub oscilloscope: OscilloscopeState,
    pub audio_ui: AudioUiState,
    pub vector_ui: VectorUiState,
    pub external: ExternalState,
    pub tab: PanelTab,
    pub panel_visible: bool,
    pub panel_width: Binary32,
    pub accum_size: Option<Resolution>,
}

impl UiState {
    /// The controls at start: the first phosphor of the table, unit
    /// brightness, a focus of 1.5 pixels, and every setting at its default.
    pub fn new(phosphors: Vec<PhosphorType>, panel_width: Binary32) -> (s: Self)
        ensures
            s.phosphors == phosphors,
            s.phosphor_index == 0,
            s.prev_phosphor_index == 0,
            s.intensity.bits == ONE_BITS,
            s.focus.bits == DEFAULT_FOCUS_BITS,
            s.input_mode == InputMode::Oscilloscope,
            s.audio_ui.pending_file is None,
            !s.audio_ui.playing,
            s.vector_ui.pending_file is None,
            s.external.mode == ExternalMode::Stdin,
            s.tab == PanelTab::Scope,
            s.panel_visible,
            s.panel_width == panel_width,
            s.accum_size is None,
    {
        UiState {
            phosphors,
            phosphor_index: 0,
            prev_phosphor_index: 0,
            intensity: Binary32::one(),
            focus: Binary32::from_bits(DEFAULT_FOCUS_BITS),
            engineer: EngineerState::default(),
            input_mode: InputMode::Oscilloscope,
            oscilloscope: OscilloscopeState::default(),
            audio_ui: AudioUiState::default(),
            vector_ui: VectorUiState::default(),
            external: ExternalState::default(),
            tab: PanelTab::Scope,
            panel_visible: true,
            panel_width,
            accum_size: None,
        }
    }

    /// The phosphor that is selected.
    pub fn selected_phosphor(&self) -> (p: &PhosphorType)
        requires
            self.phosphor_index < self.phosphors@.len(),
        ensures
            *p == self.phosphors@[self.phosphor_index as int],
    {
        &self.phosphors[self.phosphor_index]
    }

    /// Says whether another phosphor was selected since the last call.
    /// The change is told once: a second call right after says no.
    pub fn phosphor_changed(&mut self) -> (changed: bool)
        ensures
            changed == (old(self).phosphor_index != old(self).prev_phosphor_index),
            final(self).prev_phosphor_index == old(self).phosphor_index,
            final(self).phosphor_index == old(self).phosphor_index,
            final(self).phosphors == old(self).phosphors,
            final(self).intensity == old(self).intensity,
            final(self).focus == old(self).focus,
            final(self).input_mode == old(self).input_mode,
            final(self).oscilloscope == old(self).oscilloscope,
            final(self).audio_ui == old(self).audio_ui,
            final(self).vector_ui == old(self).vector_ui,
    {
        if self.phosphor_index != self.prev_phosphor_index {
            self.prev_phosphor_index = self.phosphor_index;
            true
        } else {
            false
        }
    }
}

/// The parameter blocks that follow the controls.
pub struct DisplayParams {
    pub beam_params: BeamParams,
    pub faceplate_scatter_params: FaceplateScatterParams,
    pub composite_params: CompositeParams,
}

/// Applies the controls to the parameter blocks and says at which size the
/// internal buffers are wanted.
///
/// Widths that are given in pixels are scaled with the buffers by
/// `scaled`, which multiplies a width by the resolution scale, so that the
/// beam looks the same at every buffer size; `scaled_dimension` gives a
/// swapchain dimension times the scale, rounded and at least one. The
/// focus of the controls is the width of the beam's core.
///
/// Returns the wanted size of the buffers when it differs from `current`,
/// which is when they have to be resized.
pub fn sync_gpu_params<W, D>(
    params: &mut DisplayParams,
    ui: &UiState,
    surface: Resolution,
    current: Resolution,
    scaled: W,
    scaled_dimension: D,
) -> (resize: Option<Resolution>) where W: Fn(Binary32, Binary32) -> Binary32, D: Fn(u32, Binary32) -> u32
    requires
        forall|width: Binary32, scale: Binary32| call_requires(scaled, (width, scale)),
        forall|size: u32, scale: Binary32| call_requires(scaled_dimension, (size, scale)),
    ensures
        call_ensures(
            scaled,
            (ui.focus, ui.engineer.accum_resolution_scale),
            final(params).beam_params.sigma_core,
        ),
        call_ensures(
            scaled,
            (ui.engineer.sigma_halo, ui.engineer.accum_resolution_scale),
            final(params).beam_params.sigma_halo,
        ),
        final(params).beam_params.halo_fraction == ui.engineer.halo_fraction,
        final(params).beam_params.sample_count == old(params).beam_params.sample_count,
        final(params).beam_params.width == old(params).beam_params.width,
        final(params).beam_params.height == old(params).beam_params.height,
        final(params).faceplate_scatter_params.threshold == ui.engineer.scatter_threshold,
        call_ensures(
            scaled,
            (ui.engineer.scatter_sigma, ui.engineer.accum_resolution_scale),
            final(params).faceplate_scatter_params.sigma,
        ),
        final(params).faceplate_scatter_params.intensity == ui.engineer.scatter_intensity,
        final(params).composite_params.exposure == ui.intensity,
        final(params).composite_params.mode_spec() == ui.engineer.tonemap_mode,
        final(params).composite_params.faceplate_scatter_intensity == ui.engineer.scatter_intensity,
        final(params).composite_params.glass_tint == ui.engineer.glass_tint,
        final(params).composite_params.curvature == ui.engineer.curvature,
        final(params).composite_params.edge_falloff == ui.engineer.edge_falloff,
        final(params).composite_params.viewport_size == old(params).composite_params.viewport_size,
        final(params).composite_params.viewport_offset == old(params).composite_params.viewport_offset,
        exists|width: u32, height: u32|
            {
                &&& call_ensures(
                    scaled_dimension,
                    (surface.width, ui.engineer.accum_resolution_scale),
                    width,
                )
                &&& call_ensures(
                    scaled_dimension,
                    (surface.height, ui.engineer.accum_resolution_scale),
                    height,
                )
                &&& resize == if width != current.width || height != current.height {
                    Some(Resolution { width, height })
                } else {
                    None::<Resolution>
                }
            },
{
    let eng = &ui.engineer;
    let scale = eng.accum_resolution_scale;

    params.beam_params.sigma_core = scaled(ui.focus, scale);
    params.beam_params.sigma_halo = scaled(eng.sigma_halo, scale);
    params.beam_params.halo_fraction = eng.halo_fraction;

    params.faceplate_scatter_params.threshold = eng.scatter_threshold;
    params.faceplate_scatter_params.sigma = scaled(eng.scatter_sigma, scale);
    params.faceplate_scatter_params.intensity = eng.scatter_intensity;

    params.composite_params.exposure = ui.intensity;
    params.composite_params.set_mode(eng.tonemap_mode);
    params.composite_params.faceplate_scatter_intensity = eng.scatter_intensity;
    params.composite_params.glass_tint = eng.glass_tint;
    params.composite_params.curvature = eng.curvature;
    params.composite_params.edge_falloff = eng.edge_falloff;

    let width = scaled_dimension(surface.width, scale);
    let height = scaled_dimension(surface.height, scale);
    if width != current.width || height != current.height {
        Some(Resolution { width, height })
    } else {
        None
    }
}

/// The part of the window that the image fills, in pixels: its size, and
/// the width of the side panel to its left.
#[derive(Clone, Copy, Debug, PartialEq, Eq, Structural)]
pub struct Viewport {
    pub width: Binary32,
    pub height: Binary32,
    pub x_offset: Binary32,
}

/// Whether two sample rates differ as numbers. A rate that is not a number
/// differs from every rate.
pub open spec fn rates_differ(a: Binary32, b: Binary32) -> bool {
    !(a.le_spec(b) && b.le_spec(a))
}

/// Number of commands that a frame sends whatever the state: the mode, the
/// generator's settings, the focus, the viewport, and the three audio
/// settings.
pub const STANDING_COMMANDS: usize = 7;

/// Whether a channel can be made for a rate of `rate_hz` whole samples per
/// second: its capacity can be counted, and a ring of that many samples can
/// be allocated.
pub open spec fn channel_fits(rate_hz: usize) -> bool {
    3 * rate_hz <= usize::MAX && ring_capacity_spec(rate_hz as int) * SAMPLE_BYTES <= isize::MAX
}

/// Whether a frame changes the sample rate: the rate of the controls
/// differs from the rate in use, and a channel can be made for it.
pub open spec fn rate_changes(wanted: Binary32, current: Binary32, rate_hz: usize) -> bool {
    rates_differ(wanted, current) && channel_fits(rate_hz)
}

/// One if the file is there, else zero.
pub open spec fn count_of(file: Option<String>) -> int {
    if file is Some {
        1
    } else {
        0
    }
}

/// Collects the commands of one frame, in the order in which they are to
/// be sent.
///
/// The settings are sent every frame. A pending file is sent once and
/// then is no longer pending. When the sample rate of the controls
/// differs from `sample_rate`, a channel is made for it: `rate_hz` is the
/// new rate in whole samples per second, and the channel holds one and a
/// half seconds of samples, rounded up to a power of two. The new rate is
/// taken over, the consumer half goes to `sim_consumer`, and the producer
/// half is sent with the last command: the two are the halves of one
/// channel, which is empty. If no channel can be made for the rate, the
/// rate and the channel stay as they are.
pub fn dispatch_sim_commands(
    ui: &mut UiState,
    viewport: Viewport,
    rate_hz: usize,
    sample_rate: &mut Binary32,
    sim_consumer: &mut Option<SampleConsumer>,
) -> (commands: Vec<SimCommand>)
    ensures
        final(ui).phosphors == old(ui).phosphors,
        final(ui).phosphor_index == old(ui).phosphor_index,
        final(ui).prev_phosphor_index == old(ui).prev_phosphor_index,
        final(ui).input_mode == old(ui).input_mode,
        final(ui).oscilloscope == old(ui).oscilloscope,
        final(ui).focus == old(ui).focus,
        final(ui).audio_ui.pending_file is None,
        final(ui).vector_ui.pending_file is None,
        match old(ui).audio_ui.pending_file {
            Some(path) => final(ui).audio_ui.file_path == Some(path) && final(ui).audio_ui.has_file,
            None => final(ui).audio_ui.file_path == old(ui).audio_ui.file_path
                && final(ui).audio_ui.has_file == old(ui).audio_ui.has_file,
        },
        match old(ui).vector_ui.pending_file {
            Some(path) => final(ui).vector_ui.file_path == Some(path),
            None => final(ui).vector_ui.file_path == old(ui).vector_ui.file_path,
        },
        commands@.len() == STANDING_COMMANDS + count_of(old(ui).audio_ui.pending_file) + count_of(
            old(ui).vector_ui.pending_file,
        ) + if rate_changes(old(ui).oscilloscope.sample_rate, *old(sample_rate), rate_hz) {
            1int
        } else {
            0int
        },
        commands@[0] matches SimCommand::SetInputMode(mode) && mode == old(ui).input_mode,
        commands@[1] matches SimCommand::SetOscilloscopeParams(state) && state == old(ui).oscilloscope,
        commands@[2] matches SimCommand::SetFocus(focus) && focus == old(ui).focus,
        commands@[3] matches SimCommand::SetViewport { width, height, x_offset } && width
            == viewport.width && height == viewport.height && x_offset == viewport.x_offset,
        commands@[4] matches SimCommand::SetAudioPlaying(playing) && playing == old(ui).audio_ui.playing,
        commands@[5] matches SimCommand::SetAudioLooping(looping) && looping == old(ui).audio_ui.looping,
        commands@[6] matches SimCommand::SetAudioSpeed(speed) && speed == old(ui).audio_ui.speed,
        old(ui).audio_ui.pending_file matches Some(path) ==> commands@[7] == SimCommand::LoadAudioFile(
            path,
        ),
        old(ui).vector_ui.pending_file matches Some(path) ==> commands@[7 + count_of(
            old(ui).audio_ui.pending_file,
        )] == SimCommand::LoadVectorFile(path),
        rate_changes(old(ui).oscilloscope.sample_rate, *old(sample_rate), rate_hz) ==> {
            &&& *final(sample_rate) == old(ui).oscilloscope.sample_rate
            &&& commands@.last() matches SimCommand::SetSampleRate { rate, producer } && rate == old(ui).oscilloscope.sample_rate && producer.capacity() == ring_capacity_spec(rate_hz as int)
                && producer.free() == producer.capacity() && producer.sent() == Seq::<
                BeamSample,
            >::empty()
            &&& *final(sim_consumer) matches Some(consumer) && consumer.capacity()
                == ring_capacity_spec(rate_hz as int) && consumer.ready() == Seq::<BeamSample>::empty()
                && consumer.taken() == Seq::<BeamSample>::empty()
            &&& commands@.last() matches SimCommand::SetSampleRate { rate, producer }
                && *final(sim_consumer) matches Some(consumer) && producer.channel() == consumer.channel()
        },
        !rate_changes(old(ui).oscilloscope.sample_rate, *old(sample_rate), rate_hz) ==> *final(sample_rate) == *old(sample_rate) && *final(sim_consumer) == *old(sim_consumer),
{
    let mut commands: Vec<SimCommand> = Vec::new();
    commands.push(SimCommand::SetInputMode(ui.input_mode));
    commands.push(SimCommand::SetOscilloscopeParams(ui.oscilloscope));
    commands.push(SimCommand::SetFocus(ui.focus));
    commands.push(
        SimCommand::SetViewport {
            width: viewport.width,
            height: viewport.height,
            x_offset: viewport.x_offset,
        },
    );
    commands.push(SimCommand::SetAudioPlaying(ui.audio_ui.playing));
    commands.push(SimCommand::SetAudioLooping(ui.audio_ui.looping));
    commands.push(SimCommand::SetAudioSpeed(ui.audio_ui.speed));

    let mut audio_pending: Option<String> = None;
    core::mem::swap(&mut ui.audio_ui.pending_file, &mut audio_pending);
    match audio_pending {
        Some(path) => {
            ui.audio_ui.file_path = Some(path.clone());
            ui.audio_ui.has_file = true;
            commands.push(SimCommand::LoadAudioFile(path));
        },
        None => {},
    }

    let mut vector_pending: Option<String> = None;
    core::mem::swap(&mut ui.vector_ui.pending_file, &mut vector_pending);
    match vector_pending {
        Some(path) => {
            ui.vector_ui.file_path = Some(path.clone());
            commands.push(SimCommand::LoadVectorFile(path));
        },
        None => {},
    }

    let wanted = ui.oscilloscope.sample_rate;
    proof {
        lemma_ring_capacity(rate_hz as int);
    }
    if !(wanted.le(*sample_rate) && sample_rate.le(wanted)) {
        match ring_capacity(rate_hz) {
            Some(capacity) => {
                match try_sample_channel(capacity) {
                    Some((producer, consumer)) => {
                        *sample_rate = wanted;
                        *sim_consumer = Some(consumer);
                        commands.push(SimCommand::SetSampleRate { rate: wanted, producer });
                    },
                    None => {},
                }
            },
            None => {},
        }
    }
    commands
}

} // verus!
