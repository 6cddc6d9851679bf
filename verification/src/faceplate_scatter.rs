//! Parameters of the faceplate-scatter passes: the bright part of the image
//! is downsampled to half resolution, blurred along both axes, and added
//! back as a glow.

use vstd::prelude::*;
use crate::binary32::Binary32;
use crate::types::Resolution;

verus! {

/// The encoding of `0.5`, the default luminance threshold.
pub const DEFAULT_THRESHOLD_BITS: u32 = 0x3f00_0000;

/// The encoding of `4.0`, the default blur width in half-resolution texels.
pub const DEFAULT_SIGMA_BITS: u32 = 0x4080_0000;

/// The encoding of `0.15`, the default weight of the glow.
pub const DEFAULT_INTENSITY_BITS: u32 = 0x3e19_999a;

/// Uniform block of the downsample pass.
#[derive(Clone, Copy, Debug, PartialEq, Eq, Structural)]
pub struct DownsampleParams {
    pub threshold: Binary32,
    pub pad0: Binary32,
    pub pad1: Binary32,
    pub pad2: Binary32,
}

impl DownsampleParams {
    pub fn new(threshold: Binary32) -> (p: Self)
        ensures
            p.threshold == threshold,
            p.pad0.bits == 0,
            p.pad1.bits == 0,
            p.pad2.bits == 0,
    {
        let zero = Binary32::zero();
        DownsampleParams { threshold, pad0: zero, pad1: zero, pad2: zero }
    }
}

/// Axis of a blur pass.
#[derive(Clone, Copy, Debug, PartialEq, Eq, Structural)]
pub enum BlurAxis {
    Horizontal,
    Vertical,
}

/// Uniform block of a blur pass.
#[derive(Clone, Copy, Debug)]
pub struct BlurParams {
    /// Unit step along the axis: `(1, 0)` or `(0, 1)`.
    pub direction: [Binary32; 2],
    pub sigma: Binary32,
    pub pad: Binary32,
}

impl BlurParams {
    pub fn new(axis: BlurAxis, sigma: Binary32) -> (p: Self)
        ensures
            p.sigma == sigma,
            p.pad.bits == 0,
            p.direction@[0].bits == if axis == BlurAxis::Horizontal {
                0x3f80_0000u32
            } else {
                0u32
            },
            p.direction@[1].bits == if axis == BlurAxis::Vertical {
                0x3f80_0000u32
            } else {
                0u32
            },
    {
        let zero = Binary32::zero();
        let one = Binary32::one();
        let direction = match axis {
            BlurAxis::Horizontal => [one, zero],
            BlurAxis::Vertical => [zero, one],
        };
        BlurParams { direction, sigma, pad: zero }
    }
}

/// User-facing settings of the scatter.
#[derive(Clone, Copy, Debug, PartialEq, Eq, Structural)]
pub struct FaceplateScatterParams {
    /// Luminance below which pixels do not scatter.
    pub threshold: Binary32,
    /// Blur width in texels at half resolution.
    pub sigma: Binary32,
    /// Weight of the glow in the final image.
    pub intensity: Binary32,
}

impl Default for FaceplateScatterParams {
    /// Threshold 0.5, width 4, weight 0.15.
    fn default() -> (p: Self)
        ensures
            p.threshold.bits == DEFAULT_THRESHOLD_BITS,
            p.sigma.bits == DEFAULT_SIGMA_BITS,
            p.intensity.bits == DEFAULT_INTENSITY_BITS,
    {
        FaceplateScatterParams {
            threshold: Binary32::from_bits(DEFAULT_THRESHOLD_BITS),
            sigma: Binary32::from_bits(DEFAULT_SIGMA_BITS),
            intensity: Binary32::from_bits(DEFAULT_INTENSITY_BITS),
        }
    }
}

/// Half of a dimension, but never zero.
pub open spec fn half_dimension(full: u32) -> u32 {
    if full / 2 == 0 {
        1
    } else {
        full / 2
    }
}

/// Size of the scatter buffers for an image of `full` size: half of it
/// along each axis, and at least one texel.
pub fn scatter_resolution(full: Resolution) -> (half: Resolution)
    ensures
        half.width == half_dimension(full.width),
        half.height == half_dimension(full.height),
        half.width >= 1,
        half.height >= 1,
{
    let width: u32 = full.width / 2;
    let height: u32 = full.height / 2;
    Resolution {
        width: if width == 0 {
            1
        } else {
            width
        },
        height: if height == 0 {
            1
        } else {
            height
        },
    }
}

/// The passes of the scatter, in order.
#[derive(Clone, Copy, Debug, PartialEq, Eq, Structural)]
pub enum ScatterPass {
    /// HDR image to buffer A, thresholded.
    Downsample,
    /// Buffer A to buffer B, blurred along the rows.
    BlurHorizontal,
    /// Buffer B to buffer A, blurred along the columns.
    BlurVertical,
}

/// One of the two scatter buffers.
#[derive(Clone, Copy, Debug, PartialEq, Eq, Structural)]
pub enum ScatterBuffer {
    A,
    B,
}

impl ScatterPass {
    /// The scatter buffer that the pass reads; the downsample reads the
    /// HDR image instead.
    pub fn source(self) -> (b: Option<ScatterBuffer>)
        ensures
            b == match self {
                ScatterPass::Downsample => None::<ScatterBuffer>,
                ScatterPass::BlurHorizontal => Some(ScatterBuffer::A),
                ScatterPass::BlurVertical => Some(ScatterBuffer::B),
            },
    {
        match self {
            ScatterPass::Downsample => None,
            ScatterPass::BlurHorizontal => Some(ScatterBuffer::A),
            ScatterPass::BlurVertical => Some(ScatterBuffer::B),
        }
    }

    /// The scatter buffer that the pass writes. It is never the one that
    /// the pass reads, and the last pass leaves the result in buffer A.
    pub fn target(self) -> (b: ScatterBuffer)
        ensures
            b == match self {
                ScatterPass::Downsample => ScatterBuffer::A,
                ScatterPass::BlurHorizontal => ScatterBuffer::B,
                ScatterPass::BlurVertical => ScatterBuffer::A,
            },
            Some(b) != match self {
                ScatterPass::Downsample => None::<ScatterBuffer>,
                ScatterPass::BlurHorizontal => Some(ScatterBuffer::A),
                ScatterPass::BlurVertical => Some(ScatterBuffer::B),
            },
    {
        match self {
            ScatterPass::Downsample => ScatterBuffer::A,
            ScatterPass::BlurHorizontal => ScatterBuffer::B,
            ScatterPass::BlurVertical => ScatterBuffer::A,
        }
    }
}

} // verus!
