//! The accumulation buffer and the rules by which its state evolves.
//!
//! The buffer holds the decay state of every pixel, one plane per layer.
//! Three things happen to it in a frame:
//!
//! * a deposit adds energy to a pixel: it is added to every slow
//!   exponential and to the instantaneous slot, but it replaces the
//!   power-law peak and resets the power-law clock, because the most recent
//!   impulse defines the tail;
//! * the resolve reads the state of a pixel;
//! * the decay multiplies every slow exponential down, clamps what has
//!   fallen under the threshold to zero, lets the power-law clock run on,
//!   and clears the instantaneous slot, whose energy has been seen once.
//!
//! The arithmetic (adding energy, the decay factor, advancing the clock)
//! is the caller's; the rules are here.

use vstd::prelude::*;
use crate::accumulation::{AccumDims, LayerLayout};
use crate::binary32::Binary32;
use crate::types::Resolution;

verus! {

/// Position of a plane's slot `pixel` of layer `layer` in the flat buffer.
pub open spec fn slot_position(plane: int, layer: int, pixel: int) -> int {
    layer * plane + pixel
}

/// Every slot position lies inside the buffer.
pub proof fn lemma_slot_in_bounds(plane: int, layers: int, layer: int, pixel: int)
    requires
        0 <= layer < layers,
        0 <= pixel < plane,
    ensures
        0 <= slot_position(plane, layer, pixel) < layers * plane,
        slot_position(plane, layer, pixel) + (plane - pixel) <= layers * plane,
{
    assert(layer * plane + plane <= layers * plane && 0 <= layer * plane) by (nonlinear_arith)
        requires
            0 <= layer < layers,
            0 <= plane,
    ;
}

/// Two different slots never share a position.
pub proof fn lemma_slot_distinct(plane: int, layer1: int, pixel1: int, layer2: int, pixel2: int)
    requires
        0 <= pixel1 < plane,
        0 <= pixel2 < plane,
        0 <= layer1,
        0 <= layer2,
        layer1 != layer2 || pixel1 != pixel2,
    ensures
        slot_position(plane, layer1, pixel1) != slot_position(plane, layer2, pixel2),
{
    if layer1 != layer2 {
        assert(layer1 * plane + pixel1 != layer2 * plane + pixel2) by (nonlinear_arith)
            requires
                layer1 != layer2,
                0 <= pixel1 < plane,
                0 <= pixel2 < plane,
        ;
    }
}

/// The energy that one deposit gives to the tiers of a pixel.
#[derive(Clone, Debug)]
pub struct PixelDeposit {
    /// Energy for every slow exponential, in the order of the layers.
    pub slow: Vec<Binary32>,
    /// Energy that becomes the power-law peak.
    pub peak: Binary32,
    /// Energy for the instantaneous slot.
    pub instant: Binary32,
}

/// The decay state of one pixel.
#[derive(Clone, Debug)]
pub struct PixelState {
    /// The state of every slow exponential, in the order of the layers.
    pub slow: Vec<Binary32>,
    /// Peak energy and elapsed time of the power law, if the phosphor has
    /// one.
    pub power_law: Option<(Binary32, Binary32)>,
    /// The instantaneous energy, if the phosphor has any instantaneous
    /// term.
    pub instant: Option<Binary32>,
}

/// A decayed value after the clamp: what has fallen under the threshold is
/// zero.
pub open spec fn clamped(value: Binary32, threshold: Binary32) -> Binary32 {
    if value.lt_spec(threshold) {
        Binary32 { bits: 0 }
    } else {
        value
    }
}

/// Under a positive threshold the clamp gives zero exactly for the values
/// that lie under the threshold.
pub proof fn lemma_clamp_zero_iff_under_threshold(value: Binary32, threshold: Binary32)
    requires
        threshold.gt_spec(Binary32 { bits: 0 }),
    ensures
        clamped(value, threshold).bits == 0 <==> value.lt_spec(threshold),
        clamped(value, threshold) == value || clamped(value, threshold).bits == 0,
{
}

/// Whether `after` is what the decay makes of slow-exponential state
/// `before` of term `term`: the value that `decay` gives, clamped.
pub open spec fn decays_to<D: Fn(Binary32, usize) -> Binary32>(
    decay: D,
    before: Binary32,
    term: usize,
    threshold: Binary32,
    after: Binary32,
) -> bool {
    exists|r: Binary32| call_ensures(decay, (before, term), r) && after == clamped(r, threshold)
}

/// Number of layers allocated for a layout: its own, and at least one.
pub open spec fn allocated_layers(layout: LayerLayout) -> u32 {
    if layout.layers == 0 {
        1
    } else {
        layout.layers
    }
}

/// Number of slots of a buffer: one per pixel and allocated layer.
pub open spec fn slot_count(resolution: Resolution, layout: LayerLayout) -> int {
    resolution.width * resolution.height * allocated_layers(layout)
}

/// Whether `after` is what `decay` and the clamp make of `before`.
proof fn lemma_decays_to<D: Fn(Binary32, usize) -> Binary32>(
    decay: D,
    before: Binary32,
    term: usize,
    threshold: Binary32,
    r: Binary32,
    after: Binary32,
)
    requires
        call_ensures(decay, (before, term), r),
        after == clamped(r, threshold),
    ensures
        decays_to(decay, before, term, threshold, after),
{
}

/// The per-pixel decay state of a phosphor at a resolution.
pub struct AccumulationBuffer {
    resolution: Resolution,
    layout: LayerLayout,
    layers: u32,
    data: Vec<Binary32>,
}

impl AccumulationBuffer {
    /// The resolution of the buffer.
    pub closed spec fn resolution_spec(&self) -> Resolution {
        self.resolution
    }

    /// The layout of the layers.
    pub closed spec fn layout_spec(&self) -> LayerLayout {
        self.layout
    }

    /// Number of layers allocated: those of the layout, and at least one.
    pub closed spec fn layers_spec(&self) -> u32 {
        self.layers
    }

    /// Number of pixels, which is the number of slots of one layer.
    pub open spec fn plane(&self) -> int {
        self.resolution_spec().width * self.resolution_spec().height
    }

    /// The value in slot `pixel` of layer `layer`.
    pub closed spec fn value(&self, layer: int, pixel: int) -> Binary32 {
        self.data@[slot_position(self.resolution.width * self.resolution.height, layer, pixel)]
    }

    /// Position of pixel `(x, y)` within a layer.
    pub open spec fn pixel_index(&self, x: int, y: int) -> int {
        y * self.resolution_spec().width + x
    }

    /// Number of slots that the buffer stores.
    pub closed spec fn stored(&self) -> nat {
        self.data@.len()
    }

    /// The layout fits, the buffer has the layers that its layout asks for
    /// (at least one), and it stores one slot per pixel and layer.
    pub open spec fn wf(&self) -> bool {
        &&& self.layout_spec().regions_fit()
        &&& self.layers_spec() == allocated_layers(self.layout_spec())
        &&& self.stored() == self.layers_spec() * self.plane()
        &&& 4 * self.stored() <= usize::MAX
    }

    /// Whether `layer` and `pixel` name a slot of the buffer.
    pub open spec fn holds(&self, layer: int, pixel: int) -> bool {
        0 <= layer < self.layers_spec() && 0 <= pixel < self.plane()
    }

    /// Allocates a buffer filled with zeros. `None` if a buffer of that
    /// size cannot be addressed.
    pub fn new(resolution: Resolution, layout: LayerLayout) -> (r: Option<Self>)
        requires
            layout.regions_fit(),
        ensures
            r matches Some(buffer) ==> {
                &&& buffer.wf()
                &&& buffer.resolution_spec() == resolution
                &&& buffer.layout_spec() == layout
                &&& forall|layer: int, pixel: int|
                    buffer.holds(layer, pixel) ==> (#[trigger] buffer.value(layer, pixel)).bits == 0
            },
            r is None <==> 4 * slot_count(resolution, layout) > usize::MAX,
    {
        let layers: u32 = if layout.layers == 0 {
            1
        } else {
            layout.layers
        };
        let dims = AccumDims::new(resolution, layers);
        assert(dims.slots() == layers * (resolution.width * resolution.height)) by (nonlinear_arith)
            requires
                dims.slots() == dims.width * dims.height * dims.layers,
                dims.width == resolution.width,
                dims.height == resolution.height,
                dims.layers == layers,
        ;
        let bytes = match dims.byte_size() {
            None => {
                return None;
            },
            Some(bytes) => bytes,
        };
        if bytes > usize::MAX as u64 {
            return None;
        }
        let slots: usize = (bytes / 4) as usize;
        let data = vec![Binary32 { bits: 0 }; slots];
        let buffer = AccumulationBuffer { resolution, layout, layers, data };
        proof {
            let plane = resolution.width * resolution.height;
            assert forall|layer: int, pixel: int| buffer.holds(layer, pixel) implies (
            #[trigger] buffer.value(layer, pixel)).bits == 0 by {
                lemma_slot_in_bounds(plane, layers as int, layer, pixel);
            }
        }
        Some(buffer)
    }

    /// The dimensions that the shaders address the buffer by.
    pub fn dims(&self) -> (d: AccumDims)
        ensures
            d.width == self.resolution_spec().width,
            d.height == self.resolution_spec().height,
            d.layers == self.layers_spec(),
            d.pad == 0,
    {
        AccumDims::new(self.resolution, self.layers)
    }

    /// The layout of the layers.
    pub fn layout(&self) -> (l: LayerLayout)
        ensures
            l == self.layout_spec(),
    {
        self.layout
    }

    /// Number of pixels.
    fn plane_size(&self) -> (p: usize)
        requires
            self.wf(),
        ensures
            p == self.plane(),
            self.data@.len() == self.layers * p,
            self.layers * p <= usize::MAX,
            self.layers >= 1,
    {
        assert(self.layers * (self.resolution.width * self.resolution.height)
            >= self.resolution.width * self.resolution.height) by (nonlinear_arith)
            requires
                self.layers >= 1,
                self.resolution.width * self.resolution.height >= 0,
        ;
        assert(self.resolution.width * self.resolution.height >= 0) by (nonlinear_arith)
            requires
                self.resolution.width >= 0,
                self.resolution.height >= 0,
        ;
        let len = self.data.len();
        (self.resolution.width as usize) * (self.resolution.height as usize)
    }

    fn get(&self, layer: usize, pixel: usize) -> (v: Binary32)
        requires
            self.wf(),
            self.holds(layer as int, pixel as int),
        ensures
            v == self.value(layer as int, pixel as int),
    {
        let p = self.plane_size();
        proof {
            lemma_slot_in_bounds(p as int, self.layers as int, layer as int, pixel as int);
        }
        assert(layer * p <= self.layers * p) by (nonlinear_arith)
            requires
                layer < self.layers,
                p >= 0,
        ;
        self.data[layer * p + pixel]
    }

    fn put(&mut self, layer: usize, pixel: usize, v: Binary32)
        requires
            old(self).wf(),
            old(self).holds(layer as int, pixel as int),
        ensures
            final(self).wf(),
            final(self).resolution_spec() == old(self).resolution_spec(),
            final(self).layout_spec() == old(self).layout_spec(),
            final(self).layers_spec() == old(self).layers_spec(),
            final(self).value(layer as int, pixel as int) == v,
            forall|l: int, q: int|
                old(self).holds(l, q) && (l != layer || q != pixel) ==> #[trigger] final(self).value(l, q)
                    == old(self).value(l, q),
    {
        let p = self.plane_size();
        proof {
            lemma_slot_in_bounds(p as int, self.layers as int, layer as int, pixel as int);
        }
        assert(layer * p <= self.layers * p) by (nonlinear_arith)
            requires
                layer < self.layers,
                p >= 0,
        ;
        let at: usize = layer * p + pixel;
        self.data.set(at, v);
        proof {
            assert forall|l: int, q: int|
                old(self).holds(l, q) && (l != layer || q != pixel) implies #[trigger] self.value(l, q)
                == old(self).value(l, q) by {
                lemma_slot_distinct(p as int, l, q, layer as int, pixel as int);
                lemma_slot_in_bounds(p as int, self.layers as int, l, q);
            }
        }
    }

    /// Position of pixel `(x, y)` within a layer.
    fn pixel_at(&self, x: u32, y: u32) -> (pixel: usize)
        requires
            self.wf(),
            x < self.resolution_spec().width,
            y < self.resolution_spec().height,
        ensures
            pixel == self.pixel_index(x as int, y as int),
            pixel < self.plane(),
    {
        let p = self.plane_size();
        assert(y * self.resolution.width + x < self.resolution.width * self.resolution.height)
            by (nonlinear_arith)
            requires
                x < self.resolution.width,
                y < self.resolution.height,
        ;
        (y as usize) * (self.resolution.width as usize) + (x as usize)
    }

    /// Changes the resolution of the buffer. At the same resolution nothing
    /// happens; at another the state starts over from zero. Says whether
    /// the buffer is at `resolution` afterwards, which it is unless a
    /// buffer of that size cannot be addressed.
    pub fn resize(&mut self, resolution: Resolution) -> (done: bool)
        requires
            old(self).wf(),
        ensures
            final(self).wf(),
            final(self).layout_spec() == old(self).layout_spec(),
            done <==> resolution == old(self).resolution_spec() || 4 * slot_count(
                resolution,
                old(self).layout_spec(),
            ) <= usize::MAX,
            done ==> final(self).resolution_spec() == resolution,
            !done || resolution == old(self).resolution_spec() ==> *final(self) == *old(self),
            done && resolution != old(self).resolution_spec() ==> forall|layer: int, pixel: int|
                final(self).holds(layer, pixel) ==> (#[trigger] final(self).value(layer, pixel)).bits
                    == 0,
    {
        if resolution.width == self.resolution.width && resolution.height == self.resolution.height {
            return true;
        }
        match AccumulationBuffer::new(resolution, self.layout) {
            Some(buffer) => {
                *self = buffer;
                true
            },
            None => false,
        }
    }

    /// Takes the buffer over for another phosphor. The state of one
    /// phosphor means nothing to another, so it starts over from zero: in
    /// the same allocation if the new layout needs as many layers, in a new
    /// one otherwise. Says whether the switch was made, which it is unless
    /// a buffer of the new size cannot be addressed.
    pub fn switch_layout(&mut self, layout: LayerLayout) -> (done: bool)
        requires
            old(self).wf(),
            layout.regions_fit(),
        ensures
            final(self).wf(),
            final(self).resolution_spec() == old(self).resolution_spec(),
            done <==> 4 * slot_count(old(self).resolution_spec(), layout) <= usize::MAX,
            done ==> final(self).layout_spec() == layout && forall|layer: int, pixel: int|
                final(self).holds(layer, pixel) ==> (#[trigger] final(self).value(layer, pixel)).bits
                    == 0,
            !done ==> *final(self) == *old(self),
    {
        if layout.layers == self.layout.layers {
            proof {
                let plane = self.resolution.width * self.resolution.height;
                assert(self.resolution.width * self.resolution.height * self.layers == self.layers
                    * plane) by (nonlinear_arith)
                    requires
                        plane == self.resolution.width * self.resolution.height,
                ;
            }
            self.layout = layout;
            self.clear();
            true
        } else {
            match AccumulationBuffer::new(self.resolution, layout) {
                Some(buffer) => {
                    *self = buffer;
                    true
                },
                None => false,
            }
        }
    }

    /// Fills the buffer with zeros. The state of one phosphor means nothing
    /// to another, even in the same layers.
    pub fn clear(&mut self)
        requires
            old(self).wf(),
        ensures
            final(self).wf(),
            final(self).resolution_spec() == old(self).resolution_spec(),
            final(self).layout_spec() == old(self).layout_spec(),
            final(self).layers_spec() == old(self).layers_spec(),
            forall|layer: int, pixel: int|
                final(self).holds(layer, pixel) ==> (#[trigger] final(self).value(layer, pixel)).bits
                    == 0,
    {
        let p = self.plane_size();
        let n = self.data.len();
        let mut k: usize = 0;
        while k < n
            invariant
                k <= n,
                n == self.data@.len(),
                self.wf(),
                self.resolution == old(self).resolution,
                self.layout == old(self).layout,
                self.layers == old(self).layers,
                forall|j: int| 0 <= j < k ==> (#[trigger] self.data@[j]).bits == 0,
            decreases n - k,
        {
            self.data.set(k, Binary32 { bits: 0 });
            k += 1;
        }
        proof {
            assert forall|layer: int, pixel: int| self.holds(layer, pixel) implies (#[trigger] self.value(
                layer,
                pixel,
            )).bits == 0 by {
                lemma_slot_in_bounds(p as int, self.layers as int, layer, pixel);
            }
        }
    }

    /// Reads the state of pixel `(x, y)`.
    pub fn pixel(&self, x: u32, y: u32) -> (state: PixelState)
        requires
            self.wf(),
            x < self.resolution_spec().width,
            y < self.resolution_spec().height,
        ensures
            state.slow@.len() == self.layout_spec().slow_exp_count,
            forall|i: int|
                0 <= i < state.slow@.len() ==> #[trigger] state.slow@[i] == self.value(
                    i,
                    self.pixel_index(x as int, y as int),
                ),
            state.power_law == if self.layout_spec().has_power_law {
                Some(
                    (
                        self.value(
                            self.layout_spec().power_law_layer as int,
                            self.pixel_index(x as int, y as int),
                        ),
                        self.value(
                            self.layout_spec().elapsed_layer as int,
                            self.pixel_index(x as int, y as int),
                        ),
                    ),
                )
            } else {
                None::<(Binary32, Binary32)>
            },
            state.instant == if self.layout_spec().has_instant {
                Some(
                    self.value(
                        self.layout_spec().instant_layer as int,
                        self.pixel_index(x as int, y as int),
                    ),
                )
            } else {
                None::<Binary32>
            },
    {
        let pixel = self.pixel_at(x, y);
        let count = self.layout.slow_exp_count as usize;
        let mut slow: Vec<Binary32> = Vec::new();
        let mut i: usize = 0;
        while i < count
            invariant
                i <= count,
                count == self.layout.slow_exp_count,
                self.wf(),
                pixel < self.plane(),
                slow@.len() == i,
                forall|k: int| 0 <= k < i ==> #[trigger] slow@[k] == self.value(k, pixel as int),
            decreases count - i,
        {
            slow.push(self.get(i, pixel));
            i += 1;
        }
        let power_law = if self.layout.has_power_law {
            Some(
                (
                    self.get(self.layout.power_law_layer as usize, pixel),
                    self.get(self.layout.elapsed_layer as usize, pixel),
                ),
            )
        } else {
            None
        };
        let instant = if self.layout.has_instant {
            Some(self.get(self.layout.instant_layer as usize, pixel))
        } else {
            None
        };
        PixelState { slow, power_law, instant }
    }

    /// Deposits energy into pixel `(x, y)`.
    ///
    /// `combine` adds an energy to a state. Every slow exponential and the
    /// instantaneous slot get their energy added; the power-law peak is
    /// set to its energy, whatever it was, and the power-law clock is set
    /// to zero. No other pixel changes.
    pub fn deposit<A: Fn(Binary32, Binary32) -> Binary32>(
        &mut self,
        x: u32,
        y: u32,
        energy: &PixelDeposit,
        combine: A,
    )
        requires
            old(self).wf(),
            x < old(self).resolution_spec().width,
            y < old(self).resolution_spec().height,
            energy.slow@.len() == old(self).layout_spec().slow_exp_count,
            forall|state: Binary32, e: Binary32| call_requires(combine, (state, e)),
        ensures
            final(self).wf(),
            final(self).resolution_spec() == old(self).resolution_spec(),
            final(self).layout_spec() == old(self).layout_spec(),
            final(self).layers_spec() == old(self).layers_spec(),
            forall|layer: int, pixel: int|
                old(self).holds(layer, pixel) && pixel != old(self).pixel_index(x as int, y as int)
                    ==> #[trigger] final(self).value(layer, pixel) == old(self).value(layer, pixel),
            forall|i: int|
                0 <= i < old(self).layout_spec().slow_exp_count ==> call_ensures(
                    combine,
                    (old(self).value(i, old(self).pixel_index(x as int, y as int)), energy.slow@[i]),
                    #[trigger] final(self).value(i, old(self).pixel_index(x as int, y as int)),
                ),
            old(self).layout_spec().has_power_law ==> final(self).value(
                old(self).layout_spec().power_law_layer as int,
                old(self).pixel_index(x as int, y as int),
            ) == energy.peak && final(self).value(
                old(self).layout_spec().elapsed_layer as int,
                old(self).pixel_index(x as int, y as int),
            ).bits == 0,
            old(self).layout_spec().has_instant ==> call_ensures(
                combine,
                (
                    old(self).value(
                        old(self).layout_spec().instant_layer as int,
                        old(self).pixel_index(x as int, y as int),
                    ),
                    energy.instant,
                ),
                final(self).value(
                    old(self).layout_spec().instant_layer as int,
                    old(self).pixel_index(x as int, y as int),
                ),
            ),
    {
        let pixel = self.pixel_at(x, y);
        let layout = self.layout;
        let count = layout.slow_exp_count as usize;
        let mut i: usize = 0;
        while i < count
            invariant
                i <= count,
                count == layout.slow_exp_count,
                layout == old(self).layout,
                layout.regions_fit(),
                self.wf(),
                self.resolution == old(self).resolution,
                self.layout == old(self).layout,
                self.layers == old(self).layers,
                pixel < self.plane(),
                energy.slow@.len() == count,
                forall|state: Binary32, e: Binary32| call_requires(combine, (state, e)),
                forall|l: int, q: int|
                    old(self).holds(l, q) && (q != pixel || l >= i) ==> #[trigger] self.value(l, q)
                        == old(self).value(l, q),
                forall|k: int|
                    0 <= k < i ==> call_ensures(
                        combine,
                        (old(self).value(k, pixel as int), energy.slow@[k]),
                        #[trigger] self.value(k, pixel as int),
                    ),
            decreases count - i,
        {
            let sum = combine(self.get(i, pixel), energy.slow[i]);
            self.put(i, pixel, sum);
            i += 1;
        }
        if layout.has_power_law {
            self.put(layout.power_law_layer as usize, pixel, energy.peak);
            self.put(layout.elapsed_layer as usize, pixel, Binary32::zero());
        }
        if layout.has_instant {
            let sum = combine(self.get(layout.instant_layer as usize, pixel), energy.instant);
            self.put(layout.instant_layer as usize, pixel, sum);
        }
    }

    /// Evolves every pixel by one frame.
    ///
    /// `decay` gives the decayed value of a slow exponential's state, given
    /// the state and the number of the term; `tick` advances the
    /// power-law clock by the frame's time step. Every slow exponential
    /// takes its decayed value, or zero if that has fallen under
    /// `threshold`; the power-law peak stays and its clock runs on; the
    /// instantaneous slot is cleared.
    pub fn decay<D: Fn(Binary32, usize) -> Binary32, T: Fn(Binary32) -> Binary32>(
        &mut self,
        threshold: Binary32,
        decay: D,
        tick: T,
    )
        requires
            old(self).wf(),
            forall|state: Binary32, term: usize| call_requires(decay, (state, term)),
            forall|elapsed: Binary32| call_requires(tick, (elapsed,)),
        ensures
            final(self).wf(),
            final(self).resolution_spec() == old(self).resolution_spec(),
            final(self).layout_spec() == old(self).layout_spec(),
            final(self).layers_spec() == old(self).layers_spec(),
            forall|i: int, pixel: int|
                0 <= i < old(self).layout_spec().slow_exp_count && 0 <= pixel < old(self).plane()
                    ==> decays_to(
                    decay,
                    old(self).value(i, pixel),
                    i as usize,
                    threshold,
                    #[trigger] final(self).value(i, pixel),
                ),
            old(self).layout_spec().has_power_law ==> forall|pixel: int|
                0 <= pixel < old(self).plane() ==> #[trigger] final(self).value(
                    old(self).layout_spec().power_law_layer as int,
                    pixel,
                ) == old(self).value(old(self).layout_spec().power_law_layer as int, pixel),
            old(self).layout_spec().has_power_law ==> forall|pixel: int|
                0 <= pixel < old(self).plane() ==> call_ensures(
                    tick,
                    (old(self).value(old(self).layout_spec().elapsed_layer as int, pixel),),
                    #[trigger] final(self).value(old(self).layout_spec().elapsed_layer as int, pixel),
                ),
            old(self).layout_spec().has_instant ==> forall|pixel: int|
                0 <= pixel < old(self).plane() ==> (#[trigger] final(self).value(
                    old(self).layout_spec().instant_layer as int,
                    pixel,
                )).bits == 0,
    {
        let p = self.plane_size();
        let layout = self.layout;
        let count = layout.slow_exp_count as usize;
        let mut i: usize = 0;
        while i < count
            invariant
                i <= count,
                count == layout.slow_exp_count,
                layout == old(self).layout,
                layout.regions_fit(),
                self.wf(),
                self.resolution == old(self).resolution,
                self.layout == old(self).layout,
                self.layers == old(self).layers,
                p == self.plane(),
                forall|state: Binary32, term: usize| call_requires(decay, (state, term)),
                forall|l: int, q: int|
                    old(self).holds(l, q) && l >= i ==> #[trigger] self.value(l, q) == old(self).value(
                        l,
                        q,
                    ),
                forall|l: int, q: int|
                    0 <= l < i && 0 <= q < p ==> decays_to(
                        decay,
                        old(self).value(l, q),
                        l as usize,
                        threshold,
                        #[trigger] self.value(l, q),
                    ),
            decreases count - i,
        {
            let ghost entry = *self;
            let mut q: usize = 0;
            while q < p
                invariant
                    q <= p,
                    i < count,
                    count == layout.slow_exp_count,
                    layout == old(self).layout,
                    layout.regions_fit(),
                    self.wf(),
                    entry.wf(),
                    self.resolution == old(self).resolution,
                    self.layout == old(self).layout,
                    self.layers == old(self).layers,
                    entry.resolution == old(self).resolution,
                    entry.layers == old(self).layers,
                    p == self.plane(),
                    forall|state: Binary32, term: usize| call_requires(decay, (state, term)),
                    forall|l: int, k: int|
                        old(self).holds(l, k) && (l != i || k >= q) ==> #[trigger] self.value(l, k)
                            == entry.value(l, k),
                    forall|k: int|
                        0 <= k < q ==> decays_to(
                            decay,
                            entry.value(i as int, k),
                            i,
                            threshold,
                            #[trigger] self.value(i as int, k),
                        ),
                decreases p - q,
            {
                let before = self.get(i, q);
                let r = decay(before, i);
                let after = if r.lt(threshold) {
                    Binary32::zero()
                } else {
                    r
                };
                proof {
                    lemma_decays_to(decay, before, i, threshold, r, after);
                }
                self.put(i, q, after);
                q += 1;
            }
            i += 1;
        }
        if layout.has_power_law {
            let ghost entry = *self;
            let layer = layout.elapsed_layer as usize;
            let mut q: usize = 0;
            while q < p
                invariant
                    q <= p,
                    layer == layout.elapsed_layer,
                    layout.has_power_law,
                    layout == old(self).layout,
                    layout.regions_fit(),
                    self.wf(),
                    entry.wf(),
                    self.resolution == old(self).resolution,
                    self.layout == old(self).layout,
                    self.layers == old(self).layers,
                    entry.resolution == old(self).resolution,
                    entry.layers == old(self).layers,
                    p == self.plane(),
                    forall|elapsed: Binary32| call_requires(tick, (elapsed,)),
                    forall|l: int, k: int|
                        old(self).holds(l, k) && (l != layer || k >= q) ==> #[trigger] self.value(l, k)
                            == entry.value(l, k),
                    forall|k: int|
                        0 <= k < q ==> call_ensures(
                            tick,
                            (entry.value(layer as int, k),),
                            #[trigger] self.value(layer as int, k),
                        ),
                decreases p - q,
            {
                let later = tick(self.get(layer, q));
                self.put(layer, q, later);
                q += 1;
            }
        }
        if layout.has_instant {
            let ghost entry = *self;
            let layer = layout.instant_layer as usize;
            let mut q: usize = 0;
            while q < p
                invariant
                    q <= p,
                    layer == layout.instant_layer,
                    layout.has_instant,
                    layout == old(self).layout,
                    layout.regions_fit(),
                    self.wf(),
                    entry.wf(),
                    self.resolution == old(self).resolution,
                    self.layout == old(self).layout,
                    self.layers == old(self).layers,
                    entry.resolution == old(self).resolution,
                    entry.layers == old(self).layers,
                    p == self.plane(),
                    forall|l: int, k: int|
                        old(self).holds(l, k) && (l != layer || k >= q) ==> #[trigger] self.value(l, k)
                            == entry.value(l, k),
                    forall|k: int| 0 <= k < q ==> (#[trigger] self.value(layer as int, k)).bits == 0,
                decreases p - q,
            {
                self.put(layer, q, Binary32::zero());
                q += 1;
            }
        }
    }
}

} // verus!
