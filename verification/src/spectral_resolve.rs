//! Parameters of the spectral-resolve pass, which turns the per-pixel decay
//! state into colour: the energy of every tier is spread over the bands by
//! the emission weights and projected onto the CIE colour-matching weights.

use vstd::prelude::*;
use crate::accumulation::{layer_count_spec, layout_of, LayerLayout};
use crate::binary32::Binary32;
use crate::decay::{classification_of, classify_decay_terms, DecayTerm};
use crate::spectral::pack_bands;
use crate::tonemap::CieWeights;

verus! {

/// Number of emission groups that the pass can hold.
pub const MAX_EMISSION_GROUPS: usize = 2;

/// A set of decay terms sharing an emission spectrum, with the layers that
/// hold their state.
#[derive(Clone, Copy, Debug)]
pub struct EmissionGroupGpu {
    /// Emission weights, four bands to a group.
    pub weights: [[Binary32; 4]; 4],
    /// First slow-exponential layer.
    pub slow_exp_start: u32,
    /// Number of slow exponentials.
    pub slow_exp_count: u32,
    /// One if the group has a power law, else zero.
    pub has_power_law: u32,
    /// Layer of the power-law peak energy.
    pub power_law_layer: u32,
    /// Layer of the power-law elapsed time.
    pub elapsed_layer: u32,
    /// One if the group has instantaneous emission, else zero.
    pub has_instant: u32,
    /// Layer of the instantaneous energy.
    pub instant_layer: u32,
    pub pad: u32,
}

impl EmissionGroupGpu {
    /// The unused group: all zero.
    pub open spec fn is_zeroed(&self) -> bool {
        &&& forall|i: int, j: int|
            0 <= i < 4 && 0 <= j < 4 ==> (#[trigger] self.weights@[i]@[j]).bits == 0
        &&& self.slow_exp_start == 0
        &&& self.slow_exp_count == 0
        &&& self.has_power_law == 0
        &&& self.power_law_layer == 0
        &&& self.elapsed_layer == 0
        &&& self.has_instant == 0
        &&& self.instant_layer == 0
        &&& self.pad == 0
    }

    /// Whether the group's layer fields are those of `layout`.
    pub open spec fn follows(&self, layout: LayerLayout) -> bool {
        &&& self.slow_exp_start == layout.slow_exp_start
        &&& self.slow_exp_count == layout.slow_exp_count
        &&& self.has_power_law == if layout.has_power_law {
            1u32
        } else {
            0u32
        }
        &&& self.power_law_layer == layout.power_law_layer
        &&& self.elapsed_layer == layout.elapsed_layer
        &&& self.has_instant == if layout.has_instant {
            1u32
        } else {
            0u32
        }
        &&& self.instant_layer == layout.instant_layer
        &&& self.pad == 0
    }

    /// The unused group.
    pub fn zeroed() -> (g: Self)
        ensures
            g.is_zeroed(),
    {
        let zero = Binary32::zero();
        let row = [zero, zero, zero, zero];
        EmissionGroupGpu {
            weights: [row, row, row, row],
            slow_exp_start: 0,
            slow_exp_count: 0,
            has_power_law: 0,
            power_law_layer: 0,
            elapsed_layer: 0,
            has_instant: 0,
            instant_layer: 0,
            pad: 0,
        }
    }
}

/// The `alpha` and `beta` of the first power law among `terms`, or zeros if
/// there is none.
pub open spec fn first_power_law(terms: Seq<DecayTerm>) -> (Binary32, Binary32)
    decreases terms.len(),
{
    if terms.len() == 0 {
        (Binary32 { bits: 0 }, Binary32 { bits: 0 })
    } else {
        match terms[0] {
            DecayTerm::PowerLaw { amplitude, alpha, beta } => (alpha, beta),
            DecayTerm::Exponential { amplitude, tau } => first_power_law(terms.drop_first()),
        }
    }
}

/// Uniform block of the spectral-resolve pass.
#[derive(Clone, Copy, Debug)]
pub struct SpectralResolveParams {
    pub cie_x: [[Binary32; 4]; 4],
    pub cie_y: [[Binary32; 4]; 4],
    pub cie_z: [[Binary32; 4]; 4],
    /// Number of active emission groups.
    pub group_count: u32,
    /// Power-law `alpha`, shared by the groups.
    pub power_law_alpha: Binary32,
    /// Power-law `beta`, shared by the groups.
    pub power_law_beta: Binary32,
    pub pad: u32,
    pub groups: [EmissionGroupGpu; 2],
}

impl SpectralResolveParams {
    /// A block with the colour-matching weights packed and no group yet.
    pub fn new(cie: &CieWeights) -> (p: Self)
        ensures
            forall|i: int|
                0 <= i < 16 ==> p.cie_x@[i / 4]@[i % 4] == #[trigger] cie.x@[i] && p.cie_y@[i / 4]@[i
                    % 4] == cie.y@[i] && p.cie_z@[i / 4]@[i % 4] == cie.z@[i],
            p.group_count == 0,
            p.power_law_alpha.bits == 0,
            p.power_law_beta.bits == 0,
            p.pad == 0,
            p.groups@[0].is_zeroed(),
            p.groups@[1].is_zeroed(),
    {
        SpectralResolveParams {
            cie_x: pack_bands(&cie.x),
            cie_y: pack_bands(&cie.y),
            cie_z: pack_bands(&cie.z),
            group_count: 0,
            power_law_alpha: Binary32::zero(),
            power_law_beta: Binary32::zero(),
            pad: 0,
            groups: [EmissionGroupGpu::zeroed(), EmissionGroupGpu::zeroed()],
        }
    }

    /// Reconfigures the block for a phosphor layer: one emission group with
    /// the layer's weights and the layout of its classification, and the
    /// parameters of its first power law.
    pub fn update_from_phosphor(
        &mut self,
        emission_weights: &[Binary32; 16],
        terms: &[DecayTerm],
        tau_cutoff: Binary32,
    )
        requires
            terms@.len() + 3 <= u32::MAX,
        ensures
            final(self).cie_x == old(self).cie_x,
            final(self).cie_y == old(self).cie_y,
            final(self).cie_z == old(self).cie_z,
            final(self).pad == old(self).pad,
            final(self).group_count == 1,
            final(self).power_law_alpha == first_power_law(terms@).0,
            final(self).power_law_beta == first_power_law(terms@).1,
            final(self).groups@[0].follows(layout_of(classification_of(terms@, tau_cutoff))),
            layout_of(classification_of(terms@, tau_cutoff)).regions_fit(),
            forall|i: int|
                0 <= i < 16 ==> final(self).groups@[0].weights@[i / 4]@[i % 4]
                    == #[trigger] emission_weights@[i],
            final(self).groups@[1].is_zeroed(),
    {
        let class = classify_decay_terms(terms, tau_cutoff);
        proof {
            crate::decay::lemma_tiers_partition(terms@, tau_cutoff);
        }
        let layout = LayerLayout::for_classification(&class);
        let mut alpha = Binary32::zero();
        let mut beta = Binary32::zero();
        let mut i: usize = 0;
        assert(terms@.skip(0) =~= terms@);
        while i < terms.len()
            invariant_except_break
                i <= terms@.len(),
                alpha.bits == 0,
                beta.bits == 0,
                first_power_law(terms@) == first_power_law(terms@.skip(i as int)),
            ensures
                (alpha, beta) == first_power_law(terms@),
            decreases terms@.len() - i,
        {
            assert(terms@.skip(i as int).drop_first() =~= terms@.skip(i + 1));
            match terms[i] {
                DecayTerm::PowerLaw { amplitude: _, alpha: a, beta: b } => {
                    alpha = a;
                    beta = b;
                    break ;
                },
                DecayTerm::Exponential { amplitude: _, tau: _ } => {},
            }
            i += 1;
        }
        self.power_law_alpha = alpha;
        self.power_law_beta = beta;
        self.group_count = 1;
        self.groups = [
            EmissionGroupGpu {
                weights: pack_bands(emission_weights),
                slow_exp_start: layout.slow_exp_start,
                slow_exp_count: layout.slow_exp_count,
                has_power_law: if layout.has_power_law {
                    1
                } else {
                    0
                },
                power_law_layer: layout.power_law_layer,
                elapsed_layer: layout.elapsed_layer,
                has_instant: if layout.has_instant {
                    1
                } else {
                    0
                },
                instant_layer: layout.instant_layer,
                pad: 0,
            },
            EmissionGroupGpu::zeroed(),
        ];
    }
}

} // verus!
