//! Parameters of the composite pass, which tonemaps the HDR image together
//! with the faceplate scatter and writes the swapchain image.

use vstd::prelude::*;
use crate::binary32::Binary32;

verus! {

/// The encoding of `0.15`, the default scatter weight.
pub const DEFAULT_SCATTER_INTENSITY_BITS: u32 = 0x3e19_999a;

/// The encodings of the default glass tint `(0.92, 0.95, 0.92)`.
pub const DEFAULT_TINT_RED_BITS: u32 = 0x3f6b_851f;

pub const DEFAULT_TINT_GREEN_BITS: u32 = 0x3f73_3333;

pub const DEFAULT_TINT_BLUE_BITS: u32 = 0x3f6b_851f;

/// Tonemap curve of the composite pass.
#[derive(Clone, Copy, Debug, PartialEq, Eq, Structural)]
pub enum TonemapMode {
    Reinhard,
    Aces,
    Clamp,
    /// HDR passthrough: exposure only, no compression.
    Passthrough,
}

impl Default for TonemapMode {
    fn default() -> (r: Self)
        ensures
            r == TonemapMode::Reinhard,
    {
        TonemapMode::Reinhard
    }
}

impl TonemapMode {
    /// The number that the shader knows this mode by.
    pub open spec fn code_spec(self) -> u32 {
        match self {
            TonemapMode::Reinhard => 0,
            TonemapMode::Aces => 1,
            TonemapMode::Clamp => 2,
            TonemapMode::Passthrough => 3,
        }
    }

    /// The mode that a shader code stands for; unknown codes mean Reinhard.
    pub open spec fn from_code_spec(code: u32) -> TonemapMode {
        if code == 1 {
            TonemapMode::Aces
        } else if code == 2 {
            TonemapMode::Clamp
        } else if code == 3 {
            TonemapMode::Passthrough
        } else {
            TonemapMode::Reinhard
        }
    }

    #[verifier::when_used_as_spec(code_spec)]
    pub fn code(self) -> (c: u32)
        ensures
            c == self.code_spec(),
    {
        match self {
            TonemapMode::Reinhard => 0,
            TonemapMode::Aces => 1,
            TonemapMode::Clamp => 2,
            TonemapMode::Passthrough => 3,
        }
    }

    pub fn from_code(code: u32) -> (m: TonemapMode)
        ensures
            m == TonemapMode::from_code_spec(code),
    {
        match code {
            1 => TonemapMode::Aces,
            2 => TonemapMode::Clamp,
            3 => TonemapMode::Passthrough,
            _ => TonemapMode::Reinhard,
        }
    }
}

/// Every mode survives the trip through its shader code.
pub proof fn lemma_mode_code_round_trip(mode: TonemapMode)
    ensures
        TonemapMode::from_code_spec(mode.code_spec()) == mode,
{
}

/// Uniform block of the composite pass.
#[derive(Clone, Copy, Debug)]
pub struct CompositeParams {
    pub exposure: Binary32,
    /// Shader code of the tonemap curve; written through [`CompositeParams::set_mode`].
    pub tonemap_mode: u32,
    pub faceplate_scatter_intensity: Binary32,
    pub curvature: Binary32,
    pub glass_tint: [Binary32; 3],
    pub edge_falloff: Binary32,
    pub viewport_size: [Binary32; 2],
    pub viewport_offset: [Binary32; 2],
}

impl CompositeParams {
    /// The mode that the block selects.
    pub open spec fn mode_spec(&self) -> TonemapMode {
        TonemapMode::from_code_spec(self.tonemap_mode)
    }

    /// Defaults for everything but exposure and mode: scatter weight 0.15,
    /// no curvature, tint (0.92, 0.95, 0.92), no edge falloff, a unit
    /// viewport at the origin.
    pub fn new(exposure: Binary32, mode: TonemapMode) -> (p: Self)
        ensures
            p.exposure == exposure,
            p.tonemap_mode == mode.code_spec(),
            p.mode_spec() == mode,
            p.faceplate_scatter_intensity.bits == DEFAULT_SCATTER_INTENSITY_BITS,
            p.curvature.bits == 0,
            p.glass_tint@ == seq![
                Binary32 { bits: DEFAULT_TINT_RED_BITS },
                Binary32 { bits: DEFAULT_TINT_GREEN_BITS },
                Binary32 { bits: DEFAULT_TINT_BLUE_BITS },
            ],
            p.edge_falloff.bits == 0,
            p.viewport_size@ == seq![Binary32 { bits: 0x3f80_0000 }, Binary32 { bits: 0x3f80_0000 }],
            p.viewport_offset@ == seq![Binary32 { bits: 0 }, Binary32 { bits: 0 }],
    {
        let zero = Binary32::zero();
        let one = Binary32::one();
        let p = CompositeParams {
            exposure,
            tonemap_mode: mode.code(),
            faceplate_scatter_intensity: Binary32::from_bits(DEFAULT_SCATTER_INTENSITY_BITS),
            curvature: zero,
            glass_tint: [
                Binary32::from_bits(DEFAULT_TINT_RED_BITS),
                Binary32::from_bits(DEFAULT_TINT_GREEN_BITS),
                Binary32::from_bits(DEFAULT_TINT_BLUE_BITS),
            ],
            edge_falloff: zero,
            viewport_size: [one, one],
            viewport_offset: [zero, zero],
        };
        assert(p.glass_tint@ =~= seq![
            Binary32 { bits: DEFAULT_TINT_RED_BITS },
            Binary32 { bits: DEFAULT_TINT_GREEN_BITS },
            Binary32 { bits: DEFAULT_TINT_BLUE_BITS },
        ]);
        assert(p.viewport_size@ =~= seq![Binary32 { bits: 0x3f80_0000 }, Binary32 { bits: 0x3f80_0000 }]);
        assert(p.viewport_offset@ =~= seq![Binary32 { bits: 0 }, Binary32 { bits: 0 }]);
        p
    }

    /// Selects a tonemap curve and leaves everything else alone.
    pub fn set_mode(&mut self, mode: TonemapMode)
        ensures
            final(self).tonemap_mode == mode.code_spec(),
            final(self).mode_spec() == mode,
            final(self).exposure == old(self).exposure,
            final(self).faceplate_scatter_intensity == old(self).faceplate_scatter_intensity,
            final(self).curvature == old(self).curvature,
            final(self).glass_tint == old(self).glass_tint,
            final(self).edge_falloff == old(self).edge_falloff,
            final(self).viewport_size == old(self).viewport_size,
            final(self).viewport_offset == old(self).viewport_offset,
    {
        self.tonemap_mode = mode.code();
    }

    /// The selected tonemap curve.
    #[verifier::when_used_as_spec(mode_spec)]
    pub fn mode(&self) -> (m: TonemapMode)
        ensures
            m == self.mode_spec(),
    {
        TonemapMode::from_code(self.tonemap_mode)
    }
}

} // verus!
