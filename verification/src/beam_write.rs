//! Parameters of the beam-write pass, which deposits the energy of every
//! sample into the accumulation buffer: added to each slow-exponential layer
//! and to the instantaneous layer, written over the power-law peak with the
//! elapsed time reset.

use vstd::prelude::*;
use crate::binary32::Binary32;
use crate::decay::{classification_of, classify_decay_terms, DecayTerm, Tier};

verus! {

/// Beam profile and target size of the beam-write pass.
#[derive(Clone, Copy, Debug, PartialEq, Eq, Structural)]
pub struct BeamParams {
    /// Width of the core lobe, in buffer pixels.
    pub sigma_core: Binary32,
    /// Width of the halo lobe, in buffer pixels.
    pub sigma_halo: Binary32,
    /// Share of the energy that goes to the halo lobe.
    pub halo_fraction: Binary32,
    /// Number of samples of this dispatch.
    pub sample_count: u32,
    pub width: u32,
    pub height: u32,
    pub pad0: u32,
    pub pad1: u32,
}

impl BeamParams {
    /// A block for no samples yet.
    pub fn new(
        sigma_core: Binary32,
        sigma_halo: Binary32,
        halo_fraction: Binary32,
        width: u32,
        height: u32,
    ) -> (p: Self)
        ensures
            p == (BeamParams {
                sigma_core,
                sigma_halo,
                halo_fraction,
                sample_count: 0,
                width,
                height,
                pad0: 0,
                pad1: 0,
            }),
    {
        BeamParams { sigma_core, sigma_halo, halo_fraction, sample_count: 0, width, height, pad0: 0, pad1: 0 }
    }

    /// The block with the number of samples of this dispatch set.
    pub fn with_sample_count(self, count: u32) -> (p: Self)
        ensures
            p == (BeamParams { sample_count: count, ..self }),
    {
        let mut p = self;
        p.sample_count = count;
        p
    }
}

/// How the deposited energy is shared out among the tiers.
#[derive(Clone, Copy, Debug, PartialEq, Eq, Structural)]
pub struct EmissionParams {
    pub slow_exp_count: u32,
    /// One if a power law is present, else zero.
    pub has_power_law: u32,
    /// Sum of `amplitude * tau` over the instantaneous exponentials: the
    /// whole energy that they emit, deposited as a pulse of one frame.
    pub instant_energy_total: Binary32,
    /// One if anything instantaneous is present, else zero.
    pub has_instant: u32,
}

/// The instantaneous exponentials among `terms`, in order.
pub open spec fn instant_terms_of(terms: Seq<DecayTerm>, cutoff: Binary32) -> Seq<DecayTerm>
    decreases terms.len(),
{
    if terms.len() == 0 {
        Seq::<DecayTerm>::empty()
    } else if terms.last().tier_spec(cutoff) == Tier::Instant {
        instant_terms_of(terms.drop_last(), cutoff).push(terms.last())
    } else {
        instant_terms_of(terms.drop_last(), cutoff)
    }
}

/// The instantaneous exponentials among `terms`, in order: the terms whose
/// `amplitude * tau` add up to the instantaneous energy.
pub fn instant_terms(terms: &[DecayTerm], tau_cutoff: Binary32) -> (instant: Vec<DecayTerm>)
    ensures
        instant@ == instant_terms_of(terms@, tau_cutoff),
{
    let mut instant: Vec<DecayTerm> = Vec::new();
    let mut i: usize = 0;
    while i < terms.len()
        invariant
            i <= terms@.len(),
            instant@ == instant_terms_of(terms@.take(i as int), tau_cutoff),
        decreases terms@.len() - i,
    {
        assert(terms@.take(i + 1).drop_last() =~= terms@.take(i as int));
        match terms[i].tier(tau_cutoff) {
            Tier::Instant => {
                instant.push(terms[i]);
            },
            _ => {},
        }
        i += 1;
    }
    assert(terms@.take(terms@.len() as int) =~= terms@);
    instant
}

impl EmissionParams {
    /// Builds the block for a phosphor layer from its terms and the sum of
    /// `amplitude * tau` over its instantaneous terms, which the caller
    /// adds up (see [`instant_terms`]).
    pub fn from_phosphor(terms: &[DecayTerm], tau_cutoff: Binary32, instant_energy_total: Binary32) -> (p:
        Self)
        requires
            terms@.len() <= u32::MAX,
        ensures
            p.slow_exp_count == classification_of(terms@, tau_cutoff).slow_exp_count,
            p.has_power_law == if classification_of(terms@, tau_cutoff).has_power_law {
                1u32
            } else {
                0u32
            },
            p.instant_energy_total == instant_energy_total,
            p.has_instant == if classification_of(terms@, tau_cutoff).instant_exp_count > 0 {
                1u32
            } else {
                0u32
            },
    {
        let class = classify_decay_terms(terms, tau_cutoff);
        EmissionParams {
            slow_exp_count: class.slow_exp_count as u32,
            has_power_law: if class.has_power_law {
                1
            } else {
                0
            },
            instant_energy_total,
            has_instant: if class.instant_exp_count > 0 {
                1
            } else {
                0
            },
        }
    }
}

} // verus!
