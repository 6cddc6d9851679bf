//! Parameters of the decay pass, which evolves the per-pixel state once per
//! frame: every slow exponential is multiplied by `exp(-dt / tau)`, the
//! power-law clock runs on by `dt`, and the instantaneous slot is cleared.
//!
//! The pass reads the terms that keep state from a fixed table: the slow
//! exponentials first, in the order of the phosphor's term list, then the
//! power laws.

use vstd::prelude::*;
use crate::binary32::{Binary32, ONE_BITS};
use crate::decay::{classification_of, classify_decay_terms, DecayTerm};
use crate::types::Resolution;

verus! {

/// Number of terms that the table holds.
pub const MAX_DECAY_TERMS: usize = 8;

/// The encoding of `1e-6`: state below this is clamped to zero.
pub const DECAY_THRESHOLD_BITS: u32 = 0x3586_37bd;

/// One entry of the term table.
#[derive(Clone, Copy, Debug, PartialEq, Eq, Structural)]
pub struct DecayTermGpu {
    pub amplitude: Binary32,
    /// `tau` of an exponential, `alpha` of a power law.
    pub param1: Binary32,
    /// Zero for an exponential, `beta` of a power law.
    pub param2: Binary32,
    /// `0.0` for an exponential, `1.0` for a power law.
    pub type_flag: Binary32,
}

/// The unused table entry: all zero.
pub open spec fn empty_entry() -> DecayTermGpu {
    DecayTermGpu {
        amplitude: Binary32 { bits: 0 },
        param1: Binary32 { bits: 0 },
        param2: Binary32 { bits: 0 },
        type_flag: Binary32 { bits: 0 },
    }
}

/// The table entry of a term.
pub open spec fn entry_of(term: DecayTerm) -> DecayTermGpu {
    match term {
        DecayTerm::Exponential { amplitude, tau } => DecayTermGpu {
            amplitude,
            param1: tau,
            param2: Binary32 { bits: 0 },
            type_flag: Binary32 { bits: 0 },
        },
        DecayTerm::PowerLaw { amplitude, alpha, beta } => DecayTermGpu {
            amplitude,
            param1: alpha,
            param2: beta,
            type_flag: Binary32 { bits: ONE_BITS },
        },
    }
}

/// Whether a term is an exponential with `tau >= cutoff`.
pub open spec fn keeps_slow_state(term: DecayTerm, cutoff: Binary32) -> bool {
    term matches DecayTerm::Exponential { amplitude, tau } && tau.ge_spec(cutoff)
}

/// The entries of the slow exponentials among `terms`, in order.
pub open spec fn slow_entries(terms: Seq<DecayTerm>, cutoff: Binary32) -> Seq<DecayTermGpu>
    decreases terms.len(),
{
    if terms.len() == 0 {
        Seq::<DecayTermGpu>::empty()
    } else if keeps_slow_state(terms.last(), cutoff) {
        slow_entries(terms.drop_last(), cutoff).push(entry_of(terms.last()))
    } else {
        slow_entries(terms.drop_last(), cutoff)
    }
}

/// The entries of the power laws among `terms`, in order.
pub open spec fn power_law_entries(terms: Seq<DecayTerm>) -> Seq<DecayTermGpu>
    decreases terms.len(),
{
    if terms.len() == 0 {
        Seq::<DecayTermGpu>::empty()
    } else if terms.last() is PowerLaw {
        power_law_entries(terms.drop_last()).push(entry_of(terms.last()))
    } else {
        power_law_entries(terms.drop_last())
    }
}

/// The filled part of the table: slow exponentials, then power laws.
pub open spec fn table_entries(terms: Seq<DecayTerm>, cutoff: Binary32) -> Seq<DecayTermGpu> {
    slow_entries(terms, cutoff) + power_law_entries(terms)
}

/// Neither list of entries is longer than the list of terms.
pub proof fn lemma_entries_len(terms: Seq<DecayTerm>, cutoff: Binary32)
    ensures
        slow_entries(terms, cutoff).len() + power_law_entries(terms).len() <= terms.len(),
    decreases terms.len(),
{
    if terms.len() > 0 {
        lemma_entries_len(terms.drop_last(), cutoff);
    }
}

/// Uniform block of the decay pass.
#[derive(Clone, Copy, Debug)]
pub struct DecayParams {
    /// Seconds since the last decay pass.
    pub dt: Binary32,
    /// State below this is clamped to zero.
    pub threshold: Binary32,
    pub tau_cutoff: Binary32,
    /// Number of filled table entries.
    pub term_count: u32,
    pub terms: [DecayTermGpu; 8],
    pub slow_exp_count: u32,
    /// One if a power law is present, else zero.
    pub has_power_law: u32,
    /// One if anything instantaneous is present, else zero.
    pub has_instant: u32,
    pub pad: u32,
}

/// Number of table entries that `terms` need.
pub fn table_len(terms: &[DecayTerm], tau_cutoff: Binary32) -> (n: usize)
    ensures
        n == table_entries(terms@, tau_cutoff).len(),
        n <= terms@.len(),
{
    let mut n: usize = 0;
    let mut i: usize = 0;
    while i < terms.len()
        invariant
            i <= terms@.len(),
            n == table_entries(terms@.take(i as int), tau_cutoff).len(),
            n <= i,
        decreases terms@.len() - i,
    {
        assert(terms@.take(i + 1).drop_last() =~= terms@.take(i as int));
        match terms[i] {
            DecayTerm::Exponential { amplitude: _, tau } => {
                if tau.ge(tau_cutoff) {
                    n += 1;
                }
            },
            DecayTerm::PowerLaw { amplitude: _, alpha: _, beta: _ } => {
                n += 1;
            },
        }
        i += 1;
    }
    assert(terms@.take(terms@.len() as int) =~= terms@);
    n
}

impl DecayParams {
    /// Builds the block for a phosphor layer: `dt` zero, the clamp
    /// threshold `1e-6`, the term table, and the classification flags.
    ///
    /// The terms that keep state have to fit the table.
    pub fn from_terms(terms: &[DecayTerm], tau_cutoff: Binary32) -> (p: Self)
        requires
            table_entries(terms@, tau_cutoff).len() <= MAX_DECAY_TERMS,
            terms@.len() <= u32::MAX,
        ensures
            p.dt.bits == 0,
            p.threshold.bits == DECAY_THRESHOLD_BITS,
            p.tau_cutoff == tau_cutoff,
            p.term_count == table_entries(terms@, tau_cutoff).len(),
            forall|i: int|
                0 <= i < MAX_DECAY_TERMS ==> #[trigger] p.terms@[i] == if i < table_entries(
                    terms@,
                    tau_cutoff,
                ).len() {
                    table_entries(terms@, tau_cutoff)[i]
                } else {
                    empty_entry()
                },
            p.slow_exp_count == classification_of(terms@, tau_cutoff).slow_exp_count,
            p.has_power_law == if classification_of(terms@, tau_cutoff).has_power_law {
                1u32
            } else {
                0u32
            },
            p.has_instant == if classification_of(terms@, tau_cutoff).instant_exp_count > 0 {
                1u32
            } else {
                0u32
            },
            p.pad == 0,
    {
        let zero = Binary32::zero();
        let mut gpu_terms = [DecayTermGpu { amplitude: zero, param1: zero, param2: zero, type_flag: zero };
            8];
        let class = classify_decay_terms(terms, tau_cutoff);
        let ghost slow = slow_entries(terms@, tau_cutoff);
        let ghost laws = power_law_entries(terms@);
        proof {
            lemma_entries_len(terms@, tau_cutoff);
        }
        let mut idx: usize = 0;
        let mut i: usize = 0;
        while i < terms.len()
            invariant
                i <= terms@.len(),
                zero.bits == 0,
                slow == slow_entries(terms@, tau_cutoff),
                slow.len() <= MAX_DECAY_TERMS,
                idx == slow_entries(terms@.take(i as int), tau_cutoff).len(),
                idx <= slow.len(),
                slow_entries(terms@.take(i as int), tau_cutoff) == slow.take(idx as int),
                forall|k: int| 0 <= k < idx ==> #[trigger] gpu_terms@[k] == slow[k],
                forall|k: int| idx <= k < MAX_DECAY_TERMS ==> #[trigger] gpu_terms@[k] == empty_entry(),
            decreases terms@.len() - i,
        {
            proof {
                assert(terms@.take(i + 1).drop_last() =~= terms@.take(i as int));
                lemma_slow_prefix(terms@, tau_cutoff, i + 1);
            }
            match terms[i] {
                DecayTerm::Exponential { amplitude, tau } => {
                    if tau.ge(tau_cutoff) {
                        proof {
                            let now = slow_entries(terms@.take(i + 1), tau_cutoff);
                            assert(now.last() == entry_of(terms@[i as int]));
                            assert(now == slow.take(now.len() as int));
                            assert(slow[idx as int] == now[idx as int]);
                        }
                        gpu_terms[idx] = DecayTermGpu { amplitude, param1: tau, param2: zero, type_flag: zero };
                        idx += 1;
                    }
                },
                DecayTerm::PowerLaw { amplitude: _, alpha: _, beta: _ } => {},
            }
            i += 1;
        }
        proof {
            assert(terms@.take(terms@.len() as int) =~= terms@);
        }
        let slow_len: usize = idx;
        let mut j: usize = 0;
        while j < terms.len()
            invariant
                j <= terms@.len(),
                slow_len == slow.len(),
                laws == power_law_entries(terms@),
                slow.len() + laws.len() <= MAX_DECAY_TERMS,
                idx == slow_len + power_law_entries(terms@.take(j as int)).len(),
                idx <= slow.len() + laws.len(),
                power_law_entries(terms@.take(j as int)) == laws.take(idx - slow_len),
                forall|k: int| 0 <= k < slow_len ==> #[trigger] gpu_terms@[k] == slow[k],
                forall|k: int| slow_len <= k < idx ==> #[trigger] gpu_terms@[k] == laws[k - slow_len],
                forall|k: int| idx <= k < MAX_DECAY_TERMS ==> #[trigger] gpu_terms@[k] == empty_entry(),
            decreases terms@.len() - j,
        {
            proof {
                assert(terms@.take(j + 1).drop_last() =~= terms@.take(j as int));
                lemma_power_law_prefix(terms@, j + 1);
            }
            match terms[j] {
                DecayTerm::Exponential { amplitude: _, tau: _ } => {},
                DecayTerm::PowerLaw { amplitude, alpha, beta } => {
                    proof {
                        let now = power_law_entries(terms@.take(j + 1));
                        assert(now.last() == entry_of(terms@[j as int]));
                        assert(now == laws.take(now.len() as int));
                        assert(laws[idx - slow_len] == now[idx - slow_len]);
                    }
                    gpu_terms[idx] = DecayTermGpu {
                        amplitude,
                        param1: alpha,
                        param2: beta,
                        type_flag: Binary32::one(),
                    };
                    idx += 1;
                },
            }
            j += 1;
        }
        proof {
            assert(terms@.take(terms@.len() as int) =~= terms@);
            crate::decay::lemma_tiers_partition(terms@, tau_cutoff);
        }
        DecayParams {
            dt: zero,
            threshold: Binary32::from_bits(DECAY_THRESHOLD_BITS),
            tau_cutoff,
            term_count: idx as u32,
            terms: gpu_terms,
            slow_exp_count: class.slow_exp_count as u32,
            has_power_law: if class.has_power_law {
                1
            } else {
                0
            },
            has_instant: if class.instant_exp_count > 0 {
                1
            } else {
                0
            },
            pad: 0,
        }
    }

    /// The block with the elapsed time of this frame set.
    pub fn with_dt(self, dt: Binary32) -> (p: Self)
        ensures
            p.dt == dt,
            p.threshold == self.threshold,
            p.tau_cutoff == self.tau_cutoff,
            p.term_count == self.term_count,
            p.terms == self.terms,
            p.slow_exp_count == self.slow_exp_count,
            p.has_power_law == self.has_power_law,
            p.has_instant == self.has_instant,
            p.pad == self.pad,
    {
        let mut p = self;
        p.dt = dt;
        p
    }
}

/// The slow entries of a prefix of the terms are a prefix of the slow
/// entries of all of them.
proof fn lemma_slow_prefix(terms: Seq<DecayTerm>, cutoff: Binary32, n: int)
    requires
        0 <= n <= terms.len(),
    ensures
        slow_entries(terms.take(n), cutoff).len() <= slow_entries(terms, cutoff).len(),
        slow_entries(terms.take(n), cutoff) == slow_entries(terms, cutoff).take(
            slow_entries(terms.take(n), cutoff).len() as int,
        ),
    decreases terms.len() - n,
{
    if n == terms.len() {
        assert(terms.take(n) =~= terms);
        assert(slow_entries(terms, cutoff).take(slow_entries(terms, cutoff).len() as int)
            =~= slow_entries(terms, cutoff));
    } else {
        lemma_slow_prefix(terms, cutoff, n + 1);
        let longer = slow_entries(terms.take(n + 1), cutoff);
        assert(terms.take(n + 1).drop_last() =~= terms.take(n));
        let shorter = slow_entries(terms.take(n), cutoff);
        assert(shorter =~= slow_entries(terms, cutoff).take(shorter.len() as int)) by {
            assert(longer == slow_entries(terms, cutoff).take(longer.len() as int));
            assert(shorter =~= longer.take(shorter.len() as int));
        }
    }
}

/// The power-law entries of a prefix of the terms are a prefix of the
/// power-law entries of all of them.
proof fn lemma_power_law_prefix(terms: Seq<DecayTerm>, n: int)
    requires
        0 <= n <= terms.len(),
    ensures
        power_law_entries(terms.take(n)).len() <= power_law_entries(terms).len(),
        power_law_entries(terms.take(n)) == power_law_entries(terms).take(
            power_law_entries(terms.take(n)).len() as int,
        ),
    decreases terms.len() - n,
{
    if n == terms.len() {
        assert(terms.take(n) =~= terms);
        assert(power_law_entries(terms).take(power_law_entries(terms).len() as int)
            =~= power_law_entries(terms));
    } else {
        lemma_power_law_prefix(terms, n + 1);
        let longer = power_law_entries(terms.take(n + 1));
        assert(terms.take(n + 1).drop_last() =~= terms.take(n));
        let shorter = power_law_entries(terms.take(n));
        assert(shorter =~= power_law_entries(terms).take(shorter.len() as int)) by {
            assert(longer == power_law_entries(terms).take(longer.len() as int));
            assert(shorter =~= longer.take(shorter.len() as int));
        }
    }
}

/// Pixels along each side of the square that one workgroup of the decay
/// pass covers.
pub const WORKGROUP_SIDE: u32 = 16;

/// Number of workgroups that cover `pixels` pixels along one axis: the
/// least number whose squares reach over all of them.
pub open spec fn groups_for(pixels: int) -> int {
    (pixels + WORKGROUP_SIDE - 1) / (WORKGROUP_SIDE as int)
}

/// Number of workgroups of the decay pass along each axis. Together they
/// cover every pixel, and no row or column of them lies wholly outside the
/// image.
pub fn workgroups(resolution: Resolution) -> (groups: (u32, u32))
    ensures
        groups.0 == groups_for(resolution.width as int),
        groups.1 == groups_for(resolution.height as int),
        groups.0 * WORKGROUP_SIDE >= resolution.width,
        groups.1 * WORKGROUP_SIDE >= resolution.height,
        resolution.width > 0 ==> (groups.0 - 1) * WORKGROUP_SIDE < resolution.width,
        resolution.height > 0 ==> (groups.1 - 1) * WORKGROUP_SIDE < resolution.height,
{
    let x: u32 = resolution.width / WORKGROUP_SIDE + if resolution.width % WORKGROUP_SIDE == 0 {
        0
    } else {
        1
    };
    let y: u32 = resolution.height / WORKGROUP_SIDE + if resolution.height % WORKGROUP_SIDE == 0 {
        0
    } else {
        1
    };
    (x, y)
}

} // verus!
