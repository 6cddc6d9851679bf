//! Layout of the accumulation buffer: a flat region of `width * height *
//! layers` 32-bit slots holding the per-pixel decay state.
//!
//! The layers come in a fixed order: one scalar per slow exponential, then
//! the power-law pair (peak energy, elapsed time), then the instantaneous
//! slot. Slot `(x, y)` of layer `l` sits at `l * (width * height) + y * width
//! + x`.

use vstd::prelude::*;
use crate::binary32::Binary32;
use crate::decay::{classification_of, DecayClassification, DecayTerm};
use crate::types::Resolution;

verus! {

/// Layers that a phosphor with this classification occupies.
pub open spec fn layer_count_spec(slow_exp_count: int, has_power_law: bool, has_instant: bool) -> int {
    slow_exp_count + if has_power_law {
        2int
    } else {
        0int
    } + if has_instant {
        1int
    } else {
        0int
    }
}

/// Total accumulation buffer layers for a decay classification: one per slow
/// exponential, two for a power law, one for instantaneous emission.
pub fn accum_layer_count(slow_exp_count: usize, has_power_law: bool, has_instant: bool) -> (layers: u32)
    requires
        layer_count_spec(slow_exp_count as int, has_power_law, has_instant) <= u32::MAX,
    ensures
        layers == layer_count_spec(slow_exp_count as int, has_power_law, has_instant),
{
    let mut layers: u32 = slow_exp_count as u32;
    if has_power_law {
        layers += 2;
    }
    if has_instant {
        layers += 1;
    }
    layers
}

/// Where each tier's state lives among the layers of the buffer.
#[derive(Clone, Copy, Debug, PartialEq, Eq, Structural)]
pub struct LayerLayout {
    /// First slow-exponential layer.
    pub slow_exp_start: u32,
    /// Number of slow-exponential layers.
    pub slow_exp_count: u32,
    /// Whether the power-law pair is present.
    pub has_power_law: bool,
    /// Layer of the power-law peak energy; zero when absent.
    pub power_law_layer: u32,
    /// Layer of the power-law elapsed time; zero when absent.
    pub elapsed_layer: u32,
    /// Whether the instantaneous slot is present.
    pub has_instant: bool,
    /// Layer of the instantaneous energy; zero when absent.
    pub instant_layer: u32,
    /// Number of layers in all.
    pub layers: u32,
}

/// The layout of a classification: slow exponentials from layer 0, then
/// the power-law pair, then the instantaneous slot.
pub open spec fn layout_of(class: DecayClassification) -> LayerLayout {
    let slow = class.slow_exp_count as int;
    let after_power_law = slow + if class.has_power_law {
        2int
    } else {
        0int
    };
    LayerLayout {
        slow_exp_start: 0,
        slow_exp_count: slow as u32,
        has_power_law: class.has_power_law,
        power_law_layer: if class.has_power_law {
            slow as u32
        } else {
            0
        },
        elapsed_layer: if class.has_power_law {
            (slow + 1) as u32
        } else {
            0
        },
        has_instant: class.instant_exp_count > 0,
        instant_layer: if class.instant_exp_count > 0 {
            after_power_law as u32
        } else {
            0
        },
        layers: layer_count_spec(slow, class.has_power_law, class.instant_exp_count > 0) as u32,
    }
}

impl LayerLayout {
    /// Lays out the layers for a classification.
    pub fn for_classification(class: &DecayClassification) -> (layout: LayerLayout)
        requires
            layer_count_spec(
                class.slow_exp_count as int,
                class.has_power_law,
                class.instant_exp_count > 0,
            ) <= u32::MAX,
        ensures
            layout == layout_of(*class),
            layout.regions_fit(),
    {
        let slow: u32 = class.slow_exp_count as u32;
        let mut layer: u32 = slow;
        let mut power_law_layer: u32 = 0;
        let mut elapsed_layer: u32 = 0;
        if class.has_power_law {
            power_law_layer = layer;
            elapsed_layer = layer + 1;
            layer += 2;
        }
        let has_instant = class.instant_exp_count > 0;
        let mut instant_layer: u32 = 0;
        if has_instant {
            instant_layer = layer;
            layer += 1;
        }
        LayerLayout {
            slow_exp_start: 0,
            slow_exp_count: slow,
            has_power_law: class.has_power_law,
            power_law_layer,
            elapsed_layer,
            has_instant,
            instant_layer,
            layers: layer,
        }
    }

    /// The regions lie in order, do not overlap, and fill the layers
    /// exactly.
    pub open spec fn regions_fit(self) -> bool {
        &&& self.slow_exp_start == 0
        &&& self.has_power_law ==> self.power_law_layer == self.slow_exp_count && self.elapsed_layer
            == self.power_law_layer + 1
        &&& self.has_instant ==> self.instant_layer == self.slow_exp_count + if self.has_power_law {
            2int
        } else {
            0int
        }
        &&& self.layers == layer_count_spec(
            self.slow_exp_count as int,
            self.has_power_law,
            self.has_instant,
        )
    }
}

/// The layer count of a term list is what its classification says: the
/// number of slow exponentials, two more with a power law, one more with
/// anything instantaneous; and the layout of that classification fills
/// exactly that many layers.
pub proof fn lemma_layer_count_of_terms(terms: Seq<DecayTerm>, cutoff: Binary32)
    requires
        terms.len() + 3 <= u32::MAX,
    ensures
        ({
            let class = classification_of(terms, cutoff);
            let count = layer_count_spec(
                class.slow_exp_count as int,
                class.has_power_law,
                class.instant_exp_count > 0,
            );
            &&& count == class.slow_exp_count + if class.has_power_law {
                2int
            } else {
                0int
            } + if class.instant_exp_count > 0 {
                1int
            } else {
                0int
            }
            &&& count <= u32::MAX
            &&& layout_of(class).layers == count
            &&& layout_of(class).regions_fit()
            &&& count == class.accum_layers_spec() + if class.instant_exp_count > 0 {
                1int
            } else {
                0int
            }
        }),
{
    crate::decay::lemma_tiers_partition(terms, cutoff);
}

/// Dimensions uniform of the shaders that address the flat buffer.
#[derive(Clone, Copy, Debug, PartialEq, Eq, Structural)]
pub struct AccumDims {
    pub width: u32,
    pub height: u32,
    pub layers: u32,
    pub pad: u32,
}

impl AccumDims {
    /// The dimensions of a buffer of `layers` layers at `resolution`.
    pub fn new(resolution: Resolution, layers: u32) -> (d: AccumDims)
        ensures
            d.width == resolution.width,
            d.height == resolution.height,
            d.layers == layers,
            d.pad == 0,
    {
        AccumDims { width: resolution.width, height: resolution.height, layers, pad: 0 }
    }

    /// Number of slots in the buffer.
    pub open spec fn slots(self) -> int {
        self.width * self.height * self.layers
    }

    /// Position of slot `(x, y)` of layer `layer` in the flat buffer.
    pub open spec fn index_spec(self, layer: int, x: int, y: int) -> int {
        layer * (self.width * self.height) + y * self.width + x
    }

    /// Size of the buffer in bytes, four to a slot; `None` if it does not
    /// fit 64 bits.
    pub fn byte_size(&self) -> (size: Option<u64>)
        ensures
            size is Some <==> 4 * self.slots() <= u64::MAX,
            size matches Some(bytes) ==> bytes == 4 * self.slots(),
    {
        let pixels: u64 = Resolution::new(self.width, self.height).pixels();
        assert(self.width * self.height * self.layers == pixels * self.layers) by (nonlinear_arith)
            requires
                pixels == self.width * self.height,
        ;
        match pixels.checked_mul(self.layers as u64) {
            None => None,
            Some(slots) => slots.checked_mul(4),
        }
    }

    /// Position of slot `(x, y)` of layer `layer` in the flat buffer. The
    /// position lies inside the buffer.
    pub fn slot_index(&self, layer: u32, x: u32, y: u32) -> (index: u64)
        requires
            layer < self.layers,
            x < self.width,
            y < self.height,
            self.slots() <= u64::MAX,
        ensures
            index == self.index_spec(layer as int, x as int, y as int),
            index < self.slots(),
    {
        let pixels: u64 = Resolution::new(self.width, self.height).pixels();
        proof {
            lemma_index_in_bounds(*self, layer as int, x as int, y as int);
            assert(layer * pixels <= self.slots()) by (nonlinear_arith)
                requires
                    layer < self.layers,
                    pixels == self.width * self.height,
                    self.slots() == self.width * self.height * self.layers,
                    pixels >= 0,
            ;
            assert(y * self.width + x < pixels) by (nonlinear_arith)
                requires
                    0 <= x < self.width,
                    0 <= y < self.height,
                    pixels == self.width * self.height,
            ;
        }
        (layer as u64) * pixels + (y as u64) * (self.width as u64) + (x as u64)
    }
}

/// Every slot position lies inside the buffer.
pub proof fn lemma_index_in_bounds(dims: AccumDims, layer: int, x: int, y: int)
    requires
        0 <= layer < dims.layers,
        0 <= x < dims.width,
        0 <= y < dims.height,
    ensures
        0 <= dims.index_spec(layer, x, y) < dims.slots(),
{
    let w = dims.width as int;
    let h = dims.height as int;
    let l = dims.layers as int;
    assert(y * w + x < w * h && 0 <= y * w + x) by (nonlinear_arith)
        requires
            0 <= x < w,
            0 <= y < h,
    ;
    assert(layer * (w * h) + (w * h) <= w * h * l && 0 <= layer * (w * h)) by (nonlinear_arith)
        requires
            0 <= layer < l,
            0 <= w * h,
    ;
}

/// Two different slots never share a position.
pub proof fn lemma_index_injective(
    dims: AccumDims,
    layer1: int,
    x1: int,
    y1: int,
    layer2: int,
    x2: int,
    y2: int,
)
    requires
        0 <= layer1 < dims.layers,
        0 <= x1 < dims.width,
        0 <= y1 < dims.height,
        0 <= layer2 < dims.layers,
        0 <= x2 < dims.width,
        0 <= y2 < dims.height,
        dims.index_spec(layer1, x1, y1) == dims.index_spec(layer2, x2, y2),
    ensures
        layer1 == layer2,
        x1 == x2,
        y1 == y2,
{
    let w = dims.width as int;
    let h = dims.height as int;
    let p1 = y1 * w + x1;
    let p2 = y2 * w + x2;
    assert(0 <= p1 < w * h && 0 <= p2 < w * h) by (nonlinear_arith)
        requires
            0 <= x1 < w,
            0 <= y1 < h,
            0 <= x2 < w,
            0 <= y2 < h,
            p1 == y1 * w + x1,
            p2 == y2 * w + x2,
    ;
    assert(layer1 == layer2) by (nonlinear_arith)
        requires
            layer1 * (w * h) + p1 == layer2 * (w * h) + p2,
            0 <= p1 < w * h,
            0 <= p2 < w * h,
    ;
    assert(y1 == y2) by (nonlinear_arith)
        requires
            y1 * w + x1 == y2 * w + x2,
            0 <= x1 < w,
            0 <= x2 < w,
    ;
}

/// What a phosphor switch does to the buffer.
#[derive(Clone, Copy, Debug, PartialEq, Eq, Structural)]
pub enum BufferAction {
    /// Allocate anew with this many layers.
    Reallocate(u32),
    /// Keep the allocation and fill it with zeros.
    ZeroFill,
}

/// Decides what a phosphor switch does to a buffer of `current_layers`
/// layers when the new phosphor needs `needed_layers`: a different layer
/// count means a new allocation, of at least one layer; the same count means
/// zero-filling, because the old phosphor's state means nothing to the new
/// one.
pub fn switch_action(current_layers: u32, needed_layers: u32) -> (action: BufferAction)
    ensures
        action == if needed_layers != current_layers {
            BufferAction::Reallocate(
                if needed_layers == 0 {
                    1u32
                } else {
                    needed_layers
                },
            )
        } else {
            BufferAction::ZeroFill
        },
{
    if needed_layers != current_layers {
        BufferAction::Reallocate(
            if needed_layers == 0 {
                1
            } else {
                needed_layers
            },
        )
    } else {
        BufferAction::ZeroFill
    }
}

} // verus!
