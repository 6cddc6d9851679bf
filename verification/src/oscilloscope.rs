//! Settings of the function-generator input: two independent channels, one
//! per screen axis.
//!
//! Each channel's deflection is `0.5 + amplitude * wave(2 pi f t + phase) +
//! dc_offset`, clamped to the screen. Evaluating it is the caller's part;
//! this module holds the settings and their defaults.

use vstd::prelude::*;
use crate::beam::BeamSample;
use crate::binary32::{Binary32, ONE_BITS};

verus! {

/// The encoding of `100.0`, the default frequency in hertz.
pub const DEFAULT_FREQUENCY_BITS: u32 = 0x42c8_0000;

/// The encoding of `0.4`, the default amplitude.
pub const DEFAULT_AMPLITUDE_BITS: u32 = 0x3ecc_cccd;

/// The encoding of a quarter turn, `pi / 2`.
pub const QUARTER_TURN_BITS: u32 = 0x3fc9_0fdb;

/// The encoding of `44100.0`, the default sample rate in hertz.
pub const DEFAULT_SAMPLE_RATE_BITS: u32 = 0x472c_4400;

/// Shape of a channel's wave.
#[derive(Clone, Copy, Debug, PartialEq, Eq, Structural)]
pub enum Waveform {
    Sine,
    Triangle,
    Square,
    Sawtooth,
}

impl Default for Waveform {
    fn default() -> (r: Self)
        ensures
            r == Waveform::Sine,
    {
        Waveform::Sine
    }
}

/// Number of waveforms.
pub const WAVEFORM_COUNT: usize = 4;

impl Waveform {
    /// Position of the waveform in the list of all waveforms.
    pub open spec fn index_spec(self) -> int {
        match self {
            Waveform::Sine => 0,
            Waveform::Triangle => 1,
            Waveform::Square => 2,
            Waveform::Sawtooth => 3,
        }
    }

    /// The waveform at a position of the list of all waveforms.
    pub fn from_index(i: usize) -> (w: Option<Waveform>)
        ensures
            w is Some <==> i < WAVEFORM_COUNT,
            w matches Some(form) ==> form.index_spec() == i,
    {
        match i {
            0 => Some(Waveform::Sine),
            1 => Some(Waveform::Triangle),
            2 => Some(Waveform::Square),
            3 => Some(Waveform::Sawtooth),
            _ => None,
        }
    }

    /// Display name of the waveform.
    pub fn label(self) -> (s: &'static str)
        ensures
            s@ == match self {
                Waveform::Sine => "Sine"@,
                Waveform::Triangle => "Triangle"@,
                Waveform::Square => "Square"@,
                Waveform::Sawtooth => "Sawtooth"@,
            },
    {
        match self {
            Waveform::Sine => "Sine",
            Waveform::Triangle => "Triangle",
            Waveform::Square => "Square",
            Waveform::Sawtooth => "Sawtooth",
        }
    }
}

/// Settings of one channel.
#[derive(Clone, Copy, Debug, PartialEq, Eq, Structural)]
pub struct ChannelConfig {
    pub waveform: Waveform,
    pub frequency: Binary32,
    pub amplitude: Binary32,
    pub phase: Binary32,
    pub dc_offset: Binary32,
}

impl Default for ChannelConfig {
    /// A 100 Hz sine of amplitude 0.4, without phase or offset.
    fn default() -> (r: Self)
        ensures
            r == (ChannelConfig {
                waveform: Waveform::Sine,
                frequency: Binary32 { bits: DEFAULT_FREQUENCY_BITS },
                amplitude: Binary32 { bits: DEFAULT_AMPLITUDE_BITS },
                phase: Binary32 { bits: 0 },
                dc_offset: Binary32 { bits: 0 },
            }),
    {
        ChannelConfig {
            waveform: Waveform::Sine,
            frequency: Binary32::from_bits(DEFAULT_FREQUENCY_BITS),
            amplitude: Binary32::from_bits(DEFAULT_AMPLITUDE_BITS),
            phase: Binary32::zero(),
            dc_offset: Binary32::zero(),
        }
    }
}

/// Settings of both channels, as the controls hold them.
#[derive(Clone, Copy, Debug, PartialEq, Eq, Structural)]
pub struct OscilloscopeState {
    pub x_waveform: Waveform,
    pub x_frequency: Binary32,
    pub x_amplitude: Binary32,
    pub x_phase: Binary32,
    pub x_dc_offset: Binary32,
    pub y_waveform: Waveform,
    pub y_frequency: Binary32,
    pub y_amplitude: Binary32,
    pub y_phase: Binary32,
    pub y_dc_offset: Binary32,
    pub sample_rate: Binary32,
}

impl Default for OscilloscopeState {
    /// The circle preset: two equal sines a quarter turn apart, sampled at
    /// 44.1 kHz.
    fn default() -> (r: Self)
        ensures
            r.x_channel_spec() == (ChannelConfig {
                waveform: Waveform::Sine,
                frequency: Binary32 { bits: DEFAULT_FREQUENCY_BITS },
                amplitude: Binary32 { bits: DEFAULT_AMPLITUDE_BITS },
                phase: Binary32 { bits: 0 },
                dc_offset: Binary32 { bits: 0 },
            }),
            r.y_channel_spec() == (ChannelConfig {
                waveform: Waveform::Sine,
                frequency: Binary32 { bits: DEFAULT_FREQUENCY_BITS },
                amplitude: Binary32 { bits: DEFAULT_AMPLITUDE_BITS },
                phase: Binary32 { bits: QUARTER_TURN_BITS },
                dc_offset: Binary32 { bits: 0 },
            }),
            r.sample_rate.bits == DEFAULT_SAMPLE_RATE_BITS,
    {
        OscilloscopeState {
            x_waveform: Waveform::Sine,
            x_frequency: Binary32::from_bits(DEFAULT_FREQUENCY_BITS),
            x_amplitude: Binary32::from_bits(DEFAULT_AMPLITUDE_BITS),
            x_phase: Binary32::zero(),
            x_dc_offset: Binary32::zero(),
            y_waveform: Waveform::Sine,
            y_frequency: Binary32::from_bits(DEFAULT_FREQUENCY_BITS),
            y_amplitude: Binary32::from_bits(DEFAULT_AMPLITUDE_BITS),
            y_phase: Binary32::from_bits(QUARTER_TURN_BITS),
            y_dc_offset: Binary32::zero(),
            sample_rate: Binary32::from_bits(DEFAULT_SAMPLE_RATE_BITS),
        }
    }
}

impl OscilloscopeState {
    /// The settings of the horizontal channel.
    pub open spec fn x_channel_spec(&self) -> ChannelConfig {
        ChannelConfig {
            waveform: self.x_waveform,
            frequency: self.x_frequency,
            amplitude: self.x_amplitude,
            phase: self.x_phase,
            dc_offset: self.x_dc_offset,
        }
    }

    /// The settings of the vertical channel.
    pub open spec fn y_channel_spec(&self) -> ChannelConfig {
        ChannelConfig {
            waveform: self.y_waveform,
            frequency: self.y_frequency,
            amplitude: self.y_amplitude,
            phase: self.y_phase,
            dc_offset: self.y_dc_offset,
        }
    }

    /// The settings of the horizontal channel.
    #[verifier::when_used_as_spec(x_channel_spec)]
    pub fn x_channel(&self) -> (c: ChannelConfig)
        ensures
            c == self.x_channel_spec(),
    {
        ChannelConfig {
            waveform: self.x_waveform,
            frequency: self.x_frequency,
            amplitude: self.x_amplitude,
            phase: self.x_phase,
            dc_offset: self.x_dc_offset,
        }
    }

    /// The settings of the vertical channel.
    #[verifier::when_used_as_spec(y_channel_spec)]
    pub fn y_channel(&self) -> (c: ChannelConfig)
        ensures
            c == self.y_channel_spec(),
    {
        ChannelConfig {
            waveform: self.y_waveform,
            frequency: self.y_frequency,
            amplitude: self.y_amplitude,
            phase: self.y_phase,
            dc_offset: self.y_dc_offset,
        }
    }
}

/// Whether `sample` is sample `i` of a batch that `source` generates with
/// samples `dt` long: lit at unit intensity, at the position that the two
/// channels have at the time of the sample.
pub open spec fn sampled_at<E: Fn(ChannelConfig, Binary32) -> Binary32, T: Fn(
    Binary32,
    usize,
    Binary32,
) -> Binary32>(
    source: OscilloscopeSource,
    i: usize,
    dt: Binary32,
    eval: E,
    at: T,
    sample: BeamSample,
) -> bool {
    exists|t: Binary32|
        {
            &&& call_ensures(at, (source.t_current, i, dt), t)
            &&& call_ensures(eval, (source.x_channel, t), sample.x)
            &&& call_ensures(eval, (source.y_channel, t), sample.y)
            &&& sample.intensity.bits == ONE_BITS
            &&& sample.dt == dt
        }
}

/// The function-generator source: its settings and the time at which the
/// next batch starts. Batches are phase-continuous: the caller advances the
/// time by the length of every batch it evaluates.
#[derive(Clone, Copy, Debug, PartialEq, Eq, Structural)]
pub struct OscilloscopeSource {
    pub x_channel: ChannelConfig,
    pub y_channel: ChannelConfig,
    pub sample_rate: Binary32,
    pub t_current: Binary32,
}

impl OscilloscopeSource {
    /// A source at time zero.
    pub fn new(x_channel: ChannelConfig, y_channel: ChannelConfig, sample_rate: Binary32) -> (s: Self)
        ensures
            s.x_channel == x_channel,
            s.y_channel == y_channel,
            s.sample_rate == sample_rate,
            s.t_current.bits == 0,
    {
        OscilloscopeSource { x_channel, y_channel, sample_rate, t_current: Binary32::zero() }
    }

    /// Generates `count` samples, each `dt` long, and moves the time on by
    /// their length, so that batches follow each other without a break in
    /// phase.
    ///
    /// `at` gives the time of sample `i` of a batch that starts at a given
    /// time, which for `i = count` is the start of the next batch; `eval`
    /// evaluates a channel at a time. Every sample is lit at unit
    /// intensity, with `x` from the horizontal and `y` from the vertical
    /// channel at the time of the sample.
    pub fn generate<E, T>(&mut self, count: usize, dt: Binary32, eval: E, at: T) -> (out: Vec<
        BeamSample,
    >) where E: Fn(ChannelConfig, Binary32) -> Binary32, T: Fn(Binary32, usize, Binary32) -> Binary32
        requires
            forall|channel: ChannelConfig, t: Binary32| call_requires(eval, (channel, t)),
            forall|start: Binary32, i: usize, step: Binary32| call_requires(at, (start, i, step)),
        ensures
            final(self).x_channel == old(self).x_channel,
            final(self).y_channel == old(self).y_channel,
            final(self).sample_rate == old(self).sample_rate,
            call_ensures(at, (old(self).t_current, count, dt), final(self).t_current),
            out@.len() == count,
            forall|i: int|
                0 <= i < count ==> sampled_at(*old(self), i as usize, dt, eval, at, #[trigger] out@[i]),
    {
        let mut out: Vec<BeamSample> = Vec::new();
        let mut i: usize = 0;
        while i < count
            invariant
                i <= count,
                *self == *old(self),
                forall|channel: ChannelConfig, t: Binary32| call_requires(eval, (channel, t)),
                forall|start: Binary32, k: usize, step: Binary32| call_requires(at, (start, k, step)),
                out@.len() == i,
                forall|k: int|
                    0 <= k < i ==> sampled_at(*old(self), k as usize, dt, eval, at, #[trigger] out@[k]),
            decreases count - i,
        {
            let t = at(self.t_current, i, dt);
            let sample = BeamSample {
                x: eval(self.x_channel, t),
                y: eval(self.y_channel, t),
                intensity: Binary32::one(),
                dt,
            };
            assert(sampled_at(*old(self), i, dt, eval, at, sample));
            out.push(sample);
            i += 1;
        }
        self.t_current = at(self.t_current, count, dt);
        out
    }

    /// Takes over the settings of the controls; the time runs on.
    pub fn sync_params(&mut self, state: &OscilloscopeState)
        ensures
            final(self).x_channel == state.x_channel_spec(),
            final(self).y_channel == state.y_channel_spec(),
            final(self).sample_rate == state.sample_rate,
            final(self).t_current == old(self).t_current,
    {
        self.x_channel = state.x_channel();
        self.y_channel = state.y_channel();
        self.sample_rate = state.sample_rate;
    }
}

} // verus!
