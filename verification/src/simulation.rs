//! State of the sample producer: the active input source, the settings it
//! samples with, and the commands that change them.
//!
//! The producer loop checks its command channel once per batch. A command
//! changes the state kept here; what takes a file, a decoder or a thread is
//! handed back to the loop as a [`CommandEffect`], and the result of a load
//! comes back through [`InputState::audio_loaded`] and
//! [`InputState::vector_loaded`].

use vstd::prelude::*;
use crate::beam::{BeamSample, SampleProducer};
use crate::binary32::{Binary32, ONE_BITS};
use crate::oscilloscope::{
    ChannelConfig,
    OscilloscopeSource,
    OscilloscopeState,
    Waveform,
    DEFAULT_AMPLITUDE_BITS,
    DEFAULT_FREQUENCY_BITS,
    DEFAULT_SAMPLE_RATE_BITS,
    QUARTER_TURN_BITS,
};
use crate::resample::{
    arc_length_resample,
    is_passthrough,
    resampled,
    walks,
    Advance,
    Event,
    ResampleState,
};
use crate::types::{ExternalMode, ExternalState, InputMode};
use crate::vector::VectorSegment;

verus! {

/// The encoding of `5000.0`: the factor by which every sample's intensity
/// is scaled before it is pushed, which makes the default settings visible.
pub const BEAM_ENERGY_SCALE_BITS: u32 = 0x459c_4000;

/// The encoding of `0.001`, the default settling time in seconds.
pub const DEFAULT_SETTLING_TIME_BITS: u32 = 0x3a83_126f;

/// The encoding of `1.5`, the default focus in pixels.
pub const DEFAULT_FOCUS_BITS: u32 = 0x3fc0_0000;

/// The encoding of `800.0`, the default viewport width in pixels.
pub const DEFAULT_VIEWPORT_WIDTH_BITS: u32 = 0x4448_0000;

/// The encoding of `600.0`, the default viewport height in pixels.
pub const DEFAULT_VIEWPORT_HEIGHT_BITS: u32 = 0x4416_0000;

/// One stereo frame of decoded audio: left and right, each in `[-1, 1]`.
#[derive(Clone, Copy, Debug, PartialEq, Eq, Structural)]
pub struct AudioFrame {
    pub left: Binary32,
    pub right: Binary32,
}

/// The frames of an interleaved stream of `channels` channels: a mono
/// stream gives its value to both sides, a wider one gives its first two
/// channels. A trailing piece shorter than a frame is left out.
pub open spec fn frames_of(interleaved: Seq<Binary32>, channels: int) -> Seq<AudioFrame> {
    Seq::new(
        (interleaved.len() / channels as nat) as nat,
        |i: int|
            AudioFrame {
                left: interleaved[i * channels],
                right: if channels == 1 {
                    interleaved[i * channels]
                } else {
                    interleaved[i * channels + 1]
                },
            },
    )
}

/// A decoded audio stream with a playback cursor.
pub struct AudioSource {
    samples: Vec<AudioFrame>,
    sample_rate: u32,
    position: usize,
}

impl AudioSource {
    /// The frames of the stream.
    pub closed spec fn frames(&self) -> Seq<AudioFrame> {
        self.samples@
    }

    /// Frames per second.
    pub closed spec fn rate(&self) -> u32 {
        self.sample_rate
    }

    /// Number of frames already played.
    pub closed spec fn cursor(&self) -> int {
        self.position as int
    }

    /// The cursor lies within the stream.
    pub closed spec fn wf(&self) -> bool {
        self.position <= self.samples@.len()
    }

    /// A stream from interleaved samples, with the cursor at its start.
    pub fn from_interleaved(interleaved: &[Binary32], channels: usize, sample_rate: u32) -> (s: Self)
        requires
            channels >= 1,
        ensures
            s.wf(),
            s.frames() == frames_of(interleaved@, channels as int),
            s.rate() == sample_rate,
            s.cursor() == 0,
    {
        let count: usize = interleaved.len() / channels;
        let mut samples: Vec<AudioFrame> = Vec::new();
        let mut i: usize = 0;
        while i < count
            invariant
                i <= count,
                channels >= 1,
                count == interleaved@.len() / channels as nat,
                interleaved@.len() <= usize::MAX,
                samples@.len() == i,
                forall|k: int| 0 <= k < i ==> #[trigger] samples@[k] == frames_of(interleaved@, channels as int)[k],
            decreases count - i,
        {
            assert(i * channels + channels <= interleaved@.len()) by (nonlinear_arith)
                requires
                    i < count,
                    channels >= 1,
                    count == interleaved@.len() / channels as nat,
            ;
            let at: usize = i * channels;
            let left = interleaved[at];
            let right = if channels == 1 {
                left
            } else {
                interleaved[at + 1]
            };
            samples.push(AudioFrame { left, right });
            i += 1;
        }
        assert(samples@ =~= frames_of(interleaved@, channels as int));
        AudioSource { samples, sample_rate, position: 0 }
    }

    /// Moves the cursor to frame `position`, or to the end of the stream
    /// if that lies before it.
    pub fn seek_to(&mut self, position: usize)
        requires
            old(self).wf(),
        ensures
            final(self).wf(),
            final(self).frames() == old(self).frames(),
            final(self).rate() == old(self).rate(),
            final(self).cursor() == if position <= old(self).frames().len() {
                position as int
            } else {
                old(self).frames().len() as int
            },
    {
        self.position = if position <= self.samples.len() {
            position
        } else {
            self.samples.len()
        };
    }

    /// Whether the whole stream has been played.
    pub fn is_finished(&self) -> (r: bool)
        requires
            self.wf(),
        ensures
            r == (self.cursor() >= self.frames().len()),
    {
        self.position >= self.samples.len()
    }

    /// Number of frames of the stream.
    pub fn frame_count(&self) -> (n: usize)
        ensures
            n == self.frames().len(),
    {
        self.samples.len()
    }

    /// Number of frames already played.
    pub fn position(&self) -> (n: usize)
        ensures
            n == self.cursor(),
    {
        self.position
    }

    /// Frames per second.
    pub fn sample_rate(&self) -> (r: u32)
        ensures
            r == self.rate(),
    {
        self.sample_rate
    }

    /// Plays up to `count` frames from the cursor on: each frame is turned
    /// into a beam sample by `to_sample`, and the cursor moves past it.
    pub fn generate<F: Fn(AudioFrame) -> BeamSample>(&mut self, count: usize, to_sample: F) -> (out: Vec<
        BeamSample,
    >)
        requires
            old(self).wf(),
            forall|frame: AudioFrame| call_requires(to_sample, (frame,)),
        ensures
            final(self).wf(),
            final(self).frames() == old(self).frames(),
            final(self).rate() == old(self).rate(),
            out@.len() == if count <= old(self).frames().len() - old(self).cursor() {
                count as int
            } else {
                old(self).frames().len() - old(self).cursor()
            },
            final(self).cursor() == old(self).cursor() + out@.len(),
            forall|k: int|
                0 <= k < out@.len() ==> call_ensures(
                    to_sample,
                    (old(self).frames()[old(self).cursor() + k],),
                    #[trigger] out@[k],
                ),
    {
        let remaining: usize = self.samples.len() - self.position;
        let n: usize = if count < remaining {
            count
        } else {
            remaining
        };
        let start: usize = self.position;
        let mut out: Vec<BeamSample> = Vec::new();
        let mut k: usize = 0;
        while k < n
            invariant
                k <= n,
                start + n <= self.samples@.len(),
                self.samples@.len() <= usize::MAX,
                out@.len() == k,
                forall|frame: AudioFrame| call_requires(to_sample, (frame,)),
                forall|j: int|
                    0 <= j < k ==> call_ensures(to_sample, (self.samples@[start + j],), #[trigger] out@[j]),
            decreases n - k,
        {
            out.push(to_sample(self.samples[start + k]));
            k += 1;
        }
        self.position = start + n;
        out
    }
}

/// Settings and state of audio playback.
pub struct AudioState {
    pub file_path: Option<String>,
    pub source: Option<AudioSource>,
    pub playing: bool,
    pub looping: bool,
    pub speed: Binary32,
    pub load_error: Option<String>,
}

impl Default for AudioState {
    /// Nothing loaded, stopped, at normal speed.
    fn default() -> (s: Self)
        ensures
            s.file_path is None,
            s.source is None,
            !s.playing,
            !s.looping,
            s.speed.bits == ONE_BITS,
            s.load_error is None,
    {
        AudioState {
            file_path: None,
            source: None,
            playing: false,
            looping: false,
            speed: Binary32::one(),
            load_error: None,
        }
    }
}

/// What audio playback does for a batch.
#[derive(Clone, Copy, Debug, PartialEq, Eq, Structural)]
pub enum AudioPlan {
    /// Nothing plays: playback is stopped or nothing is loaded.
    Silent,
    /// The source plays.
    Play,
}

impl AudioState {
    /// Whether a stream is loaded and playing.
    pub open spec fn is_audible(&self) -> bool {
        self.playing && self.source is Some
    }

    /// Says whether audio plays in this batch.
    pub fn plan(&self) -> (p: AudioPlan)
        ensures
            p == if self.is_audible() {
                AudioPlan::Play
            } else {
                AudioPlan::Silent
            },
    {
        if !self.playing {
            return AudioPlan::Silent;
        }
        match &self.source {
            Some(_) => AudioPlan::Play,
            None => AudioPlan::Silent,
        }
    }

    /// After a batch has played: at the end of the stream a looping
    /// playback starts over and any other playback stops.
    pub fn after_batch(&mut self)
        requires
            old(self).source matches Some(source) ==> source.wf(),
        ensures
            final(self).file_path == old(self).file_path,
            final(self).looping == old(self).looping,
            final(self).speed == old(self).speed,
            final(self).load_error == old(self).load_error,
            final(self).source is Some <==> old(self).source is Some,
            match old(self).source {
                None => final(self).playing == old(self).playing,
                Some(before) => {
                    let after = final(self).source->0;
                    let finished = before.cursor() >= before.frames().len();
                    &&& after.wf()
                    &&& after.frames() == before.frames()
                    &&& after.rate() == before.rate()
                    &&& after.cursor() == if finished && old(self).looping {
                        0
                    } else {
                        before.cursor()
                    }
                    &&& final(self).playing == if finished && !old(self).looping {
                        false
                    } else {
                        old(self).playing
                    }
                },
            },
    {
        let looping = self.looping;
        let mut stop = false;
        match &mut self.source {
            None => {},
            Some(source) => {
                if source.is_finished() {
                    if looping {
                        source.seek_to(0);
                    } else {
                        stop = true;
                    }
                }
            },
        }
        if stop {
            self.playing = false;
        }
    }
}

/// Settings and state of the vector display list.
pub struct VectorState {
    pub file_path: Option<String>,
    pub segments: Vec<VectorSegment>,
    /// Beam speed along a segment, in screen widths per second.
    pub beam_speed: Binary32,
    /// Seconds that the beam takes to settle between segments that do not
    /// touch.
    pub settling_time: Binary32,
    pub looping: bool,
    pub load_error: Option<String>,
}

impl Default for VectorState {
    /// No segments, unit speed, a millisecond of settling, looping.
    fn default() -> (s: Self)
        ensures
            s.file_path is None,
            s.segments@.len() == 0,
            s.beam_speed.bits == ONE_BITS,
            s.settling_time.bits == DEFAULT_SETTLING_TIME_BITS,
            s.looping,
            s.load_error is None,
    {
        VectorState {
            file_path: None,
            segments: Vec::new(),
            beam_speed: Binary32::one(),
            settling_time: Binary32::from_bits(DEFAULT_SETTLING_TIME_BITS),
            looping: true,
            load_error: None,
        }
    }
}

/// The default channel at a phase: a 100 Hz sine of amplitude 0.4.
pub open spec fn default_channel(phase: Binary32) -> ChannelConfig {
    ChannelConfig {
        waveform: Waveform::Sine,
        frequency: Binary32 { bits: DEFAULT_FREQUENCY_BITS },
        amplitude: Binary32 { bits: DEFAULT_AMPLITUDE_BITS },
        phase,
        dc_offset: Binary32 { bits: 0 },
    }
}

/// Everything that the input sources need.
pub struct InputState {
    pub mode: InputMode,
    pub oscilloscope: OscilloscopeState,
    pub audio: AudioState,
    pub vector: VectorState,
    pub external: ExternalState,
    pub osc_source: OscilloscopeSource,
}

impl Default for InputState {
    /// The function generator with its circle preset, and nothing loaded.
    fn default() -> (s: Self)
        ensures
            s.mode == InputMode::Oscilloscope,
            s.oscilloscope.x_channel_spec() == default_channel(Binary32 { bits: 0 }),
            s.oscilloscope.y_channel_spec() == default_channel(Binary32 { bits: QUARTER_TURN_BITS }),
            s.oscilloscope.sample_rate.bits == DEFAULT_SAMPLE_RATE_BITS,
            s.audio.file_path is None,
            !s.audio.looping,
            s.audio.speed.bits == ONE_BITS,
            s.audio.load_error is None,
            s.vector.file_path is None,
            s.vector.beam_speed.bits == ONE_BITS,
            s.vector.settling_time.bits == DEFAULT_SETTLING_TIME_BITS,
            s.vector.looping,
            s.vector.load_error is None,
            s.external.socket_path@ == Seq::<char>::empty(),
            s.osc_source.x_channel == s.oscilloscope.x_channel_spec(),
            s.osc_source.y_channel == s.oscilloscope.y_channel_spec(),
            s.osc_source.sample_rate == s.oscilloscope.sample_rate,
            s.osc_source.t_current.bits == 0,
            s.audio.source is None,
            !s.audio.playing,
            s.vector.segments@.len() == 0,
            s.external.mode == ExternalMode::Stdin,
            !s.external.connected,
    {
        let oscilloscope = OscilloscopeState::default();
        let osc_source = OscilloscopeSource::new(
            oscilloscope.x_channel(),
            oscilloscope.y_channel(),
            oscilloscope.sample_rate,
        );
        InputState {
            mode: InputMode::Oscilloscope,
            oscilloscope,
            audio: AudioState::default(),
            vector: VectorState::default(),
            external: ExternalState::default(),
            osc_source,
        }
    }
}

/// Which source fills a batch.
#[derive(Clone, Copy, Debug, PartialEq, Eq, Structural)]
pub enum BatchSource {
    /// Nothing is generated.
    Silent,
    /// The function generator, with the settings in `osc_source`.
    Oscilloscope,
    /// The audio stream.
    Audio,
    /// The vector display list.
    Vector,
    /// The external protocol, up to its next frame sync.
    External,
}

impl InputState {
    /// The source of a batch of `count` samples.
    pub open spec fn batch_source_spec(&self, count: usize) -> BatchSource {
        match self.mode {
            InputMode::Oscilloscope => if count == 0 {
                BatchSource::Silent
            } else {
                BatchSource::Oscilloscope
            },
            InputMode::Audio => if self.audio.is_audible() {
                BatchSource::Audio
            } else {
                BatchSource::Silent
            },
            InputMode::Vector => if self.vector.segments@.len() == 0 {
                BatchSource::Silent
            } else {
                BatchSource::Vector
            },
            InputMode::External => BatchSource::External,
        }
    }

    /// Prepares a batch of `count` samples at `sample_rate` and says which
    /// source fills it.
    ///
    /// In function-generator mode the generator takes over the settings of
    /// the controls and the sample rate of the batch, whether or not
    /// anything is generated. Audio plays only while it is playing and
    /// loaded, and the display list only when it has segments.
    pub fn begin_batch(&mut self, sample_rate: Binary32, count: usize) -> (source: BatchSource)
        ensures
            source == old(self).batch_source_spec(count),
            final(self).mode == old(self).mode,
            final(self).oscilloscope == old(self).oscilloscope,
            final(self).audio == old(self).audio,
            final(self).vector == old(self).vector,
            final(self).external == old(self).external,
            final(self).osc_source == if old(self).mode == InputMode::Oscilloscope {
                OscilloscopeSource {
                    x_channel: old(self).oscilloscope.x_channel_spec(),
                    y_channel: old(self).oscilloscope.y_channel_spec(),
                    sample_rate,
                    t_current: old(self).osc_source.t_current,
                }
            } else {
                old(self).osc_source
            },
    {
        match self.mode {
            InputMode::Oscilloscope => {
                self.osc_source.sync_params(&self.oscilloscope);
                self.osc_source.sample_rate = sample_rate;
                if count == 0 {
                    BatchSource::Silent
                } else {
                    BatchSource::Oscilloscope
                }
            },
            InputMode::Audio => {
                match self.audio.plan() {
                    AudioPlan::Play => BatchSource::Audio,
                    AudioPlan::Silent => BatchSource::Silent,
                }
            },
            InputMode::Vector => {
                if self.vector.segments.len() == 0 {
                    BatchSource::Silent
                } else {
                    BatchSource::Vector
                }
            },
            InputMode::External => BatchSource::External,
        }
    }

    /// Takes in the result of loading an audio file: a stream starts to
    /// play at once; an error is kept for the controls to show, and
    /// whatever was loaded before is gone.
    pub fn audio_loaded(&mut self, path: String, result: Result<AudioSource, String>)
        ensures
            final(self).mode == old(self).mode,
            final(self).oscilloscope == old(self).oscilloscope,
            final(self).vector == old(self).vector,
            final(self).external == old(self).external,
            final(self).osc_source == old(self).osc_source,
            final(self).audio.looping == old(self).audio.looping,
            final(self).audio.speed == old(self).audio.speed,
            match result {
                Ok(source) => {
                    &&& final(self).audio.source == Some(source)
                    &&& final(self).audio.file_path == Some(path)
                    &&& final(self).audio.load_error is None
                    &&& final(self).audio.playing
                },
                Err(message) => {
                    &&& final(self).audio.source is None
                    &&& final(self).audio.file_path == old(self).audio.file_path
                    &&& final(self).audio.load_error == Some(message)
                    &&& final(self).audio.playing == old(self).audio.playing
                },
            },
    {
        match result {
            Ok(source) => {
                self.audio.source = Some(source);
                self.audio.file_path = Some(path);
                self.audio.load_error = None;
                self.audio.playing = true;
            },
            Err(message) => {
                self.audio.load_error = Some(message);
                self.audio.source = None;
            },
        }
    }

    /// Takes in the result of loading a display list: the segments replace
    /// the old ones; an error is kept for the controls to show, and the
    /// list is emptied.
    pub fn vector_loaded(&mut self, path: String, result: Result<Vec<VectorSegment>, String>)
        ensures
            final(self).mode == old(self).mode,
            final(self).oscilloscope == old(self).oscilloscope,
            final(self).audio == old(self).audio,
            final(self).external == old(self).external,
            final(self).osc_source == old(self).osc_source,
            final(self).vector.beam_speed == old(self).vector.beam_speed,
            final(self).vector.settling_time == old(self).vector.settling_time,
            final(self).vector.looping == old(self).vector.looping,
            match result {
                Ok(segments) => {
                    &&& final(self).vector.segments == segments
                    &&& final(self).vector.file_path == Some(path)
                    &&& final(self).vector.load_error is None
                },
                Err(message) => {
                    &&& final(self).vector.segments@.len() == 0
                    &&& final(self).vector.file_path == old(self).vector.file_path
                    &&& final(self).vector.load_error == Some(message)
                },
            },
    {
        match result {
            Ok(segments) => {
                self.vector.segments = segments;
                self.vector.file_path = Some(path);
                self.vector.load_error = None;
            },
            Err(message) => {
                self.vector.load_error = Some(message);
                self.vector.segments.clear();
            },
        }
    }
}

/// Commands sent from the render thread to the sample producer.
pub enum SimCommand {
    SetInputMode(InputMode),
    SetOscilloscopeParams(OscilloscopeState),
    SetFocus(Binary32),
    /// Viewport size in pixels, and the width of the side panel to its
    /// left.
    SetViewport { width: Binary32, height: Binary32, x_offset: Binary32 },
    LoadAudioFile(String),
    SetAudioPlaying(bool),
    SetAudioLooping(bool),
    SetAudioSpeed(Binary32),
    LoadVectorFile(String),
    /// A new sample rate, with the producer half of the channel that was
    /// made for it.
    SetSampleRate { rate: Binary32, producer: SampleProducer },
    Shutdown,
}

/// What the producer loop has to do itself for a command.
pub enum CommandEffect {
    /// Nothing: the state took the command in.
    Done,
    /// Load this audio file and report with [`InputState::audio_loaded`].
    LoadAudio(String),
    /// Load this display list and report with
    /// [`InputState::vector_loaded`].
    LoadVector(String),
    /// Push into this producer from now on; the old one is dropped.
    SwapProducer(SampleProducer),
    /// Leave the loop.
    Shutdown,
}

/// State of the sample producer, as the commands shape it.
pub struct SimState {
    pub input: InputState,
    /// Beam focus in pixels.
    pub focus: Binary32,
    pub viewport_width: Binary32,
    pub viewport_height: Binary32,
    pub sample_rate: Binary32,
}

impl SimState {
    /// The state of a producer that has seen no command: default inputs, a
    /// focus of 1.5 pixels, a viewport of 800 by 600, and the function
    /// generator's sample rate.
    pub fn new() -> (s: Self)
        ensures
            s.input.mode == InputMode::Oscilloscope,
            s.input.oscilloscope.x_channel_spec() == default_channel(Binary32 { bits: 0 }),
            s.input.oscilloscope.y_channel_spec() == default_channel(
                Binary32 { bits: QUARTER_TURN_BITS },
            ),
            s.input.osc_source.x_channel == s.input.oscilloscope.x_channel_spec(),
            s.input.osc_source.y_channel == s.input.oscilloscope.y_channel_spec(),
            s.input.osc_source.sample_rate == s.input.oscilloscope.sample_rate,
            s.input.osc_source.t_current.bits == 0,
            s.input.audio.source is None,
            !s.input.audio.playing,
            !s.input.audio.looping,
            s.input.audio.speed.bits == ONE_BITS,
            s.input.vector.segments@.len() == 0,
            s.input.vector.beam_speed.bits == ONE_BITS,
            s.input.vector.settling_time.bits == DEFAULT_SETTLING_TIME_BITS,
            s.input.vector.looping,
            !s.input.external.connected,
            s.sample_rate.bits == DEFAULT_SAMPLE_RATE_BITS,
            s.focus.bits == DEFAULT_FOCUS_BITS,
            s.viewport_width.bits == DEFAULT_VIEWPORT_WIDTH_BITS,
            s.viewport_height.bits == DEFAULT_VIEWPORT_HEIGHT_BITS,
            s.sample_rate == s.input.oscilloscope.sample_rate,
    {
        let input = InputState::default();
        let sample_rate = input.oscilloscope.sample_rate;
        SimState {
            input,
            focus: Binary32::from_bits(DEFAULT_FOCUS_BITS),
            viewport_width: Binary32::from_bits(DEFAULT_VIEWPORT_WIDTH_BITS),
            viewport_height: Binary32::from_bits(DEFAULT_VIEWPORT_HEIGHT_BITS),
            sample_rate,
        }
    }

    /// Takes in one command and says what is left for the loop to do.
    ///
    /// Settings go into the state. A file to load, the new producer of a
    /// changed sample rate, and the shutdown are handed back.
    pub fn apply_command(&mut self, cmd: SimCommand) -> (effect: CommandEffect)
        ensures
            match cmd {
                SimCommand::SetInputMode(mode) => {
                    &&& effect is Done
                    &&& final(self).input.mode == mode
                    &&& final(self).input.oscilloscope == old(self).input.oscilloscope
                    &&& final(self).input.audio == old(self).input.audio
                    &&& final(self).input.vector == old(self).input.vector
                    &&& final(self).input.external == old(self).input.external
                    &&& final(self).input.osc_source == old(self).input.osc_source
                    &&& final(self).same_settings(*old(self))
                },
                SimCommand::SetOscilloscopeParams(params) => {
                    &&& effect is Done
                    &&& final(self).input.oscilloscope == params
                    &&& final(self).input.mode == old(self).input.mode
                    &&& final(self).input.audio == old(self).input.audio
                    &&& final(self).input.vector == old(self).input.vector
                    &&& final(self).input.external == old(self).input.external
                    &&& final(self).input.osc_source == old(self).input.osc_source
                    &&& final(self).same_settings(*old(self))
                },
                SimCommand::SetFocus(focus) => {
                    &&& effect is Done
                    &&& final(self).focus == focus
                    &&& final(self).input == old(self).input
                    &&& final(self).viewport_width == old(self).viewport_width
                    &&& final(self).viewport_height == old(self).viewport_height
                    &&& final(self).sample_rate == old(self).sample_rate
                },
                SimCommand::SetViewport { width, height, x_offset } => {
                    &&& effect is Done
                    &&& final(self).viewport_width == width
                    &&& final(self).viewport_height == height
                    &&& final(self).input == old(self).input
                    &&& final(self).focus == old(self).focus
                    &&& final(self).sample_rate == old(self).sample_rate
                },
                SimCommand::LoadAudioFile(path) => {
                    &&& effect == CommandEffect::LoadAudio(path)
                    &&& *final(self) == *old(self)
                },
                SimCommand::SetAudioPlaying(playing) => {
                    &&& effect is Done
                    &&& final(self).input.audio.playing == playing
                    &&& final(self).input.audio.looping == old(self).input.audio.looping
                    &&& final(self).input.audio.speed == old(self).input.audio.speed
                    &&& final(self).same_but_audio_settings(*old(self))
                },
                SimCommand::SetAudioLooping(looping) => {
                    &&& effect is Done
                    &&& final(self).input.audio.looping == looping
                    &&& final(self).input.audio.playing == old(self).input.audio.playing
                    &&& final(self).input.audio.speed == old(self).input.audio.speed
                    &&& final(self).same_but_audio_settings(*old(self))
                },
                SimCommand::SetAudioSpeed(speed) => {
                    &&& effect is Done
                    &&& final(self).input.audio.speed == speed
                    &&& final(self).input.audio.playing == old(self).input.audio.playing
                    &&& final(self).input.audio.looping == old(self).input.audio.looping
                    &&& final(self).same_but_audio_settings(*old(self))
                },
                SimCommand::LoadVectorFile(path) => {
                    &&& effect == CommandEffect::LoadVector(path)
                    &&& *final(self) == *old(self)
                },
                SimCommand::SetSampleRate { rate, producer } => {
                    &&& effect == CommandEffect::SwapProducer(producer)
                    &&& final(self).sample_rate == rate
                    &&& final(self).input == old(self).input
                    &&& final(self).focus == old(self).focus
                    &&& final(self).viewport_width == old(self).viewport_width
                    &&& final(self).viewport_height == old(self).viewport_height
                },
                SimCommand::Shutdown => {
                    &&& effect is Shutdown
                    &&& *final(self) == *old(self)
                },
            },
    {
        match cmd {
            SimCommand::SetInputMode(mode) => {
                self.input.mode = mode;
                CommandEffect::Done
            },
            SimCommand::SetOscilloscopeParams(params) => {
                self.input.oscilloscope = params;
                CommandEffect::Done
            },
            SimCommand::SetFocus(focus) => {
                self.focus = focus;
                CommandEffect::Done
            },
            SimCommand::SetViewport { width, height, x_offset: _ } => {
                self.viewport_width = width;
                self.viewport_height = height;
                CommandEffect::Done
            },
            SimCommand::LoadAudioFile(path) => CommandEffect::LoadAudio(path),
            SimCommand::SetAudioPlaying(playing) => {
                self.input.audio.playing = playing;
                CommandEffect::Done
            },
            SimCommand::SetAudioLooping(looping) => {
                self.input.audio.looping = looping;
                CommandEffect::Done
            },
            SimCommand::SetAudioSpeed(speed) => {
                self.input.audio.speed = speed;
                CommandEffect::Done
            },
            SimCommand::LoadVectorFile(path) => CommandEffect::LoadVector(path),
            SimCommand::SetSampleRate { rate, producer } => {
                self.sample_rate = rate;
                CommandEffect::SwapProducer(producer)
            },
            SimCommand::Shutdown => CommandEffect::Shutdown,
        }
    }

    /// Focus, viewport and sample rate are those of `other`.
    pub open spec fn same_settings(self, other: SimState) -> bool {
        &&& self.focus == other.focus
        &&& self.viewport_width == other.viewport_width
        &&& self.viewport_height == other.viewport_height
        &&& self.sample_rate == other.sample_rate
    }

    /// Everything but the three playback settings of the audio state is as
    /// in `other`.
    pub open spec fn same_but_audio_settings(self, other: SimState) -> bool {
        &&& self.same_settings(other)
        &&& self.input.mode == other.input.mode
        &&& self.input.oscilloscope == other.input.oscilloscope
        &&& self.input.vector == other.input.vector
        &&& self.input.external == other.input.external
        &&& self.input.osc_source == other.input.osc_source
        &&& self.input.audio.file_path == other.input.audio.file_path
        &&& self.input.audio.source == other.input.audio.source
        &&& self.input.audio.load_error == other.input.audio.load_error
    }
}

/// What the shape of the viewport asks of a batch.
#[derive(Clone, Copy, Debug, PartialEq, Eq, Structural)]
pub enum AspectCorrection {
    /// The viewport is wider than high: `x` is drawn in towards the centre.
    CompressX,
    /// The viewport is higher than wide: `y` is drawn in towards the
    /// centre.
    CompressY,
    /// The viewport is square: the samples stay as they are.
    Keep,
}

/// The correction for a viewport of aspect `aspect`, its width over its
/// height.
pub open spec fn aspect_correction_spec(aspect: Binary32) -> AspectCorrection {
    if aspect.gt_spec(Binary32 { bits: ONE_BITS }) {
        AspectCorrection::CompressX
    } else if aspect.lt_spec(Binary32 { bits: ONE_BITS }) {
        AspectCorrection::CompressY
    } else {
        AspectCorrection::Keep
    }
}

/// The correction for a viewport of aspect `aspect`.
#[verifier::when_used_as_spec(aspect_correction_spec)]
pub fn aspect_correction(aspect: Binary32) -> (c: AspectCorrection)
    ensures
        c == aspect_correction_spec(aspect),
{
    if aspect.gt(Binary32::one()) {
        AspectCorrection::CompressX
    } else if aspect.lt(Binary32::one()) {
        AspectCorrection::CompressY
    } else {
        AspectCorrection::Keep
    }
}

/// Whether `after` is `before` with every sample taken through `change`.
pub open spec fn mapped<F: Fn(BeamSample) -> BeamSample>(
    before: Seq<BeamSample>,
    change: F,
    after: Seq<BeamSample>,
) -> bool {
    &&& after.len() == before.len()
    &&& forall|i: int| 0 <= i < before.len() ==> call_ensures(change, (before[i],), #[trigger] after[i])
}

/// Takes every sample through `change`.
pub fn map_samples<F: Fn(BeamSample) -> BeamSample>(samples: &[BeamSample], change: F) -> (out: Vec<
    BeamSample,
>)
    requires
        forall|s: BeamSample| call_requires(change, (s,)),
    ensures
        mapped(samples@, change, out@),
{
    let mut out: Vec<BeamSample> = Vec::new();
    let mut i: usize = 0;
    while i < samples.len()
        invariant
            i <= samples@.len(),
            forall|s: BeamSample| call_requires(change, (s,)),
            out@.len() == i,
            forall|k: int| 0 <= k < i ==> call_ensures(change, (samples@[k],), #[trigger] out@[k]),
        decreases samples@.len() - i,
    {
        out.push(change(samples[i]));
        i += 1;
    }
    out
}

/// Whether `after` is `before` resampled by arc length at `threshold` with
/// the sums that `advance` gives.
pub open spec fn resampled_by<A: Fn(ResampleState, BeamSample) -> Advance>(
    before: Seq<BeamSample>,
    threshold: Binary32,
    advance: A,
    after: Seq<BeamSample>,
) -> bool {
    if is_passthrough(before.len(), threshold) {
        after == before
    } else {
        exists|events: Seq<Event>| walks(events, before, threshold, advance) && after == resampled(
            events,
            threshold,
        )
    }
}

/// Brings the samples of a source into the form in which they are pushed:
/// corrected for the aspect of the viewport, resampled by arc length, and
/// scaled to the beam's energy, in that order.
///
/// `compress_x` and `compress_y` draw a sample in towards the centre by the
/// aspect, `advance` gives the running sums of the resampling, and `scale`
/// scales a sample's intensity.
pub fn normalize_batch<X, Y, A, S>(
    samples: Vec<BeamSample>,
    aspect: Binary32,
    threshold: Binary32,
    compress_x: X,
    compress_y: Y,
    advance: A,
    scale: S,
) -> (out: Vec<BeamSample>) where
    X: Fn(BeamSample) -> BeamSample,
    Y: Fn(BeamSample) -> BeamSample,
    A: Fn(ResampleState, BeamSample) -> Advance,
    S: Fn(BeamSample) -> BeamSample,

    requires
        forall|s: BeamSample| call_requires(compress_x, (s,)),
        forall|s: BeamSample| call_requires(compress_y, (s,)),
        forall|state: ResampleState, s: BeamSample| call_requires(advance, (state, s)),
        forall|s: BeamSample| call_requires(scale, (s,)),
    ensures
        exists|corrected: Seq<BeamSample>, merged: Seq<BeamSample>|
            {
                &&& match aspect_correction_spec(aspect) {
                    AspectCorrection::CompressX => mapped(samples@, compress_x, corrected),
                    AspectCorrection::CompressY => mapped(samples@, compress_y, corrected),
                    AspectCorrection::Keep => corrected == samples@,
                }
                &&& resampled_by(corrected, threshold, advance, merged)
                &&& mapped(merged, scale, out@)
            },
{
    let corrected = match aspect_correction(aspect) {
        AspectCorrection::CompressX => map_samples(samples.as_slice(), compress_x),
        AspectCorrection::CompressY => map_samples(samples.as_slice(), compress_y),
        AspectCorrection::Keep => samples,
    };
    let merged = arc_length_resample(corrected.as_slice(), threshold, advance);
    let out = map_samples(merged.as_slice(), scale);
    proof {
        assert(resampled_by(corrected@, threshold, advance, merged@));
    }
    out
}

} // verus!
