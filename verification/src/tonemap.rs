//! Parameters of the stand-alone tonemap pass, which projects spectral
//! energy to colour and compresses it for display.

use vstd::prelude::*;
use crate::binary32::Binary32;
use crate::spectral::pack_bands;

verus! {

/// Tonemap curve of the tonemap pass.
#[derive(Clone, Copy, Debug, PartialEq, Eq, Structural)]
pub enum TonemapMode {
    Reinhard,
    Aces,
    Clamp,
}

impl Default for TonemapMode {
    fn default() -> (r: Self)
        ensures
            r == TonemapMode::Reinhard,
    {
        TonemapMode::Reinhard
    }
}

impl TonemapMode {
    /// The number that the shader knows this mode by.
    pub open spec fn code_spec(self) -> u32 {
        match self {
            TonemapMode::Reinhard => 0,
            TonemapMode::Aces => 1,
            TonemapMode::Clamp => 2,
        }
    }

    /// The mode that a shader code stands for; unknown codes mean Reinhard.
    pub open spec fn from_code_spec(code: u32) -> TonemapMode {
        if code == 1 {
            TonemapMode::Aces
        } else if code == 2 {
            TonemapMode::Clamp
        } else {
            TonemapMode::Reinhard
        }
    }

    #[verifier::when_used_as_spec(code_spec)]
    pub fn code(self) -> (c: u32)
        ensures
            c == self.code_spec(),
    {
        match self {
            TonemapMode::Reinhard => 0,
            TonemapMode::Aces => 1,
            TonemapMode::Clamp => 2,
        }
    }

    pub fn from_code(code: u32) -> (m: TonemapMode)
        ensures
            m == TonemapMode::from_code_spec(code),
    {
        match code {
            1 => TonemapMode::Aces,
            2 => TonemapMode::Clamp,
            _ => TonemapMode::Reinhard,
        }
    }
}

/// Every mode survives the trip through its shader code.
pub proof fn lemma_mode_code_round_trip(mode: TonemapMode)
    ensures
        TonemapMode::from_code_spec(mode.code_spec()) == mode,
{
}

/// The colour-matching weights of the 16 bands: for each band, the CIE 1931
/// `x`, `y` and `z` functions integrated over it.
#[derive(Clone, Copy, Debug)]
pub struct CieWeights {
    pub x: [Binary32; 16],
    pub y: [Binary32; 16],
    pub z: [Binary32; 16],
}

/// Uniform block of the tonemap pass.
#[derive(Clone, Copy, Debug)]
pub struct TonemapParams {
    pub cie_x: [[Binary32; 4]; 4],
    pub cie_y: [[Binary32; 4]; 4],
    pub cie_z: [[Binary32; 4]; 4],
    pub exposure: Binary32,
    /// Shader code of the tonemap curve.
    pub tonemap_mode: u32,
    pub pad1: Binary32,
    pub pad2: Binary32,
}

impl TonemapParams {
    /// The mode that the block selects.
    pub open spec fn mode_spec(&self) -> TonemapMode {
        TonemapMode::from_code_spec(self.tonemap_mode)
    }

    /// A block with the colour-matching weights packed four bands to a
    /// group.
    pub fn new(exposure: Binary32, mode: TonemapMode, cie: &CieWeights) -> (p: Self)
        ensures
            p.exposure == exposure,
            p.tonemap_mode == mode.code_spec(),
            p.mode_spec() == mode,
            p.pad1.bits == 0,
            p.pad2.bits == 0,
            forall|i: int|
                0 <= i < 16 ==> p.cie_x@[i / 4]@[i % 4] == #[trigger] cie.x@[i] && p.cie_y@[i / 4]@[i
                    % 4] == cie.y@[i] && p.cie_z@[i / 4]@[i % 4] == cie.z@[i],
    {
        TonemapParams {
            cie_x: pack_bands(&cie.x),
            cie_y: pack_bands(&cie.y),
            cie_z: pack_bands(&cie.z),
            exposure,
            tonemap_mode: mode.code(),
            pad1: Binary32::zero(),
            pad2: Binary32::zero(),
        }
    }

    /// Selects a tonemap curve and leaves everything else alone.
    pub fn set_mode(&mut self, mode: TonemapMode)
        ensures
            final(self).tonemap_mode == mode.code_spec(),
            final(self).mode_spec() == mode,
            final(self).exposure == old(self).exposure,
            final(self).cie_x == old(self).cie_x,
            final(self).cie_y == old(self).cie_y,
            final(self).cie_z == old(self).cie_z,
    {
        self.tonemap_mode = mode.code();
    }

    /// The selected tonemap curve.
    #[verifier::when_used_as_spec(mode_spec)]
    pub fn mode(&self) -> (m: TonemapMode)
        ensures
            m == self.mode_spec(),
    {
        TonemapMode::from_code(self.tonemap_mode)
    }
}

} // verus!
