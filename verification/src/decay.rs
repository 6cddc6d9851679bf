//! Decay terms and their classification into tiers.
//!
//! A phosphor layer's emission decays as a sum of terms. Each term is routed
//! to the cheapest representation that keeps its physics:
//!
//! * an exponential faster than the cutoff integrates to a one-frame pulse
//!   and needs no state ([`Tier::Instant`]);
//! * a slower exponential keeps one scalar per pixel ([`Tier::Slow`]);
//! * a power law keeps a peak and an elapsed time ([`Tier::PowerLaw`]).

use vstd::prelude::*;
use crate::binary32::Binary32;

verus! {

/// The encoding of `1e-4`: exponentials with a time constant under 100 µs
/// count as instantaneous.
pub const TAU_CUTOFF_BITS: u32 = 0x38d1_b717;

/// One summand of a decay law. Times are in seconds.
#[derive(Clone, Copy, Debug, PartialEq, Eq, Structural)]
pub enum DecayTerm {
    /// Emission rate `amplitude * exp(-t / tau)`.
    Exponential { amplitude: Binary32, tau: Binary32 },
    /// Emission rate `amplitude * (alpha / (t + alpha))^beta`.
    PowerLaw { amplitude: Binary32, alpha: Binary32, beta: Binary32 },
}

/// The representation that a decay term is routed to.
#[derive(Clone, Copy, Debug, PartialEq, Eq, Structural)]
pub enum Tier {
    /// Exponential with `tau < cutoff`.
    Instant,
    /// Exponential that is not instantaneous (a NaN `tau` lands here).
    Slow,
    /// Power-law term.
    PowerLaw,
}

impl DecayTerm {
    /// The tier of this term under `cutoff`.
    pub open spec fn tier_spec(self, cutoff: Binary32) -> Tier {
        match self {
            DecayTerm::Exponential { amplitude, tau } => if tau.lt_spec(cutoff) {
                Tier::Instant
            } else {
                Tier::Slow
            },
            DecayTerm::PowerLaw { amplitude, alpha, beta } => Tier::PowerLaw,
        }
    }

    /// The tier of this term under `cutoff`.
    #[verifier::when_used_as_spec(tier_spec)]
    pub fn tier(self, cutoff: Binary32) -> (t: Tier)
        ensures
            t == self.tier_spec(cutoff),
    {
        match self {
            DecayTerm::Exponential { amplitude: _, tau } => {
                if tau.lt(cutoff) {
                    Tier::Instant
                } else {
                    Tier::Slow
                }
            },
            DecayTerm::PowerLaw { amplitude: _, alpha: _, beta: _ } => Tier::PowerLaw,
        }
    }
}

/// How many of `terms` fall into `tier` under `cutoff`.
pub open spec fn tier_count(terms: Seq<DecayTerm>, cutoff: Binary32, tier: Tier) -> nat
    decreases terms.len(),
{
    if terms.len() == 0 {
        0
    } else {
        tier_count(terms.drop_last(), cutoff, tier) + if terms.last().tier_spec(cutoff) == tier {
            1nat
        } else {
            0nat
        }
    }
}

/// Result of classifying a layer's decay terms.
#[derive(Clone, Copy, Debug, PartialEq, Eq, Structural)]
pub struct DecayClassification {
    /// Exponential terms with `tau < cutoff`.
    pub instant_exp_count: usize,
    /// Exponential terms with `tau >= cutoff`, or with a NaN `tau`.
    pub slow_exp_count: usize,
    /// Whether any power-law term exists.
    pub has_power_law: bool,
}

/// The classification of `terms` under `cutoff`, as a mathematical value.
pub open spec fn classification_of(terms: Seq<DecayTerm>, cutoff: Binary32) -> DecayClassification {
    DecayClassification {
        instant_exp_count: tier_count(terms, cutoff, Tier::Instant) as usize,
        slow_exp_count: tier_count(terms, cutoff, Tier::Slow) as usize,
        has_power_law: tier_count(terms, cutoff, Tier::PowerLaw) > 0,
    }
}

impl DecayClassification {
    /// Layers of persistent per-pixel state: one per slow exponential, two
    /// for a power law.
    pub open spec fn accum_layers_spec(self) -> int {
        self.slow_exp_count + if self.has_power_law {
            2int
        } else {
            0int
        }
    }

    /// Layers of persistent per-pixel state that this classification needs:
    /// one scalar per slow exponential, plus peak and elapsed time when a
    /// power law is present. Instantaneous terms keep no state.
    pub fn accum_layers(&self) -> (layers: usize)
        requires
            self.accum_layers_spec() <= usize::MAX,
        ensures
            layers == self.accum_layers_spec(),
    {
        let mut layers: usize = self.slow_exp_count;
        if self.has_power_law {
            layers += 2;
        }
        layers
    }

    /// Whether any instantaneous exponential exists.
    pub open spec fn has_instant_spec(&self) -> bool {
        self.instant_exp_count > 0
    }

    /// Whether any instantaneous exponential exists.
    #[verifier::when_used_as_spec(has_instant_spec)]
    pub fn has_instant(&self) -> (r: bool)
        ensures
            r == self.has_instant_spec(),
    {
        self.instant_exp_count > 0
    }
}

/// The three tier counts of a term list add up to its length.
pub proof fn lemma_tiers_partition(terms: Seq<DecayTerm>, cutoff: Binary32)
    ensures
        tier_count(terms, cutoff, Tier::Instant) + tier_count(terms, cutoff, Tier::Slow)
            + tier_count(terms, cutoff, Tier::PowerLaw) == terms.len(),
    decreases terms.len(),
{
    if terms.len() > 0 {
        lemma_tiers_partition(terms.drop_last(), cutoff);
    }
}

/// Appending one term raises the count of its own tier by one and leaves the
/// other counts alone.
pub proof fn lemma_tier_count_push(
    terms: Seq<DecayTerm>,
    term: DecayTerm,
    cutoff: Binary32,
    tier: Tier,
)
    ensures
        tier_count(terms.push(term), cutoff, tier) == tier_count(terms, cutoff, tier) + if term.tier_spec(
            cutoff,
        ) == tier {
            1nat
        } else {
            0nat
        },
{
    assert(terms.push(term).drop_last() =~= terms);
}

/// Classifies decay terms into tiers by a time-constant cutoff.
///
/// Counts the exponentials on either side of the cutoff and notes whether a
/// power law is present. The counts and the number of power-law terms add up
/// to the number of terms.
pub fn classify_decay_terms(terms: &[DecayTerm], tau_cutoff: Binary32) -> (class: DecayClassification)
    ensures
        class == classification_of(terms@, tau_cutoff),
        class.instant_exp_count == tier_count(terms@, tau_cutoff, Tier::Instant),
        class.slow_exp_count == tier_count(terms@, tau_cutoff, Tier::Slow),
        class.instant_exp_count + class.slow_exp_count + tier_count(
            terms@,
            tau_cutoff,
            Tier::PowerLaw,
        ) == terms@.len(),
{
    let mut instant: usize = 0;
    let mut slow: usize = 0;
    let mut power_law: bool = false;
    let mut i: usize = 0;
    while i < terms.len()
        invariant
            i <= terms@.len(),
            instant == tier_count(terms@.take(i as int), tau_cutoff, Tier::Instant),
            slow == tier_count(terms@.take(i as int), tau_cutoff, Tier::Slow),
            power_law == (tier_count(terms@.take(i as int), tau_cutoff, Tier::PowerLaw) > 0),
        decreases terms@.len() - i,
    {
        proof {
            let prefix = terms@.take(i as int);
            assert(terms@.take(i + 1) =~= prefix.push(terms@[i as int]));
            lemma_tier_count_push(prefix, terms@[i as int], tau_cutoff, Tier::Instant);
            lemma_tier_count_push(prefix, terms@[i as int], tau_cutoff, Tier::Slow);
            lemma_tier_count_push(prefix, terms@[i as int], tau_cutoff, Tier::PowerLaw);
            lemma_tiers_partition(terms@.take(i + 1), tau_cutoff);
        }
        match terms[i].tier(tau_cutoff) {
            Tier::Instant => {
                instant += 1;
            },
            Tier::Slow => {
                slow += 1;
            },
            Tier::PowerLaw => {
                power_law = true;
            },
        }
        i += 1;
    }
    proof {
        assert(terms@.take(terms@.len() as int) =~= terms@);
        lemma_tiers_partition(terms@, tau_cutoff);
    }
    DecayClassification { instant_exp_count: instant, slow_exp_count: slow, has_power_law: power_law }
}

/// Every term is counted once: with at most one power-law term, the two
/// exponential counts and the power-law flag add up to the number of terms.
pub proof fn lemma_classification_counts_terms(terms: Seq<DecayTerm>, cutoff: Binary32)
    requires
        terms.len() <= usize::MAX,
        tier_count(terms, cutoff, Tier::PowerLaw) <= 1,
    ensures
        ({
            let c = classification_of(terms, cutoff);
            c.instant_exp_count + c.slow_exp_count + if c.has_power_law {
                1int
            } else {
                0int
            } == terms.len()
        }),
{
    lemma_tiers_partition(terms, cutoff);
}

/// Classification looks only at the shape of the terms: two lists whose
/// terms fall into the same tiers, position by position, classify alike.
pub proof fn lemma_classification_by_shape(a: Seq<DecayTerm>, b: Seq<DecayTerm>, cutoff: Binary32)
    requires
        a.len() == b.len(),
        forall|i: int| 0 <= i < a.len() ==> a[i].tier_spec(cutoff) == b[i].tier_spec(cutoff),
    ensures
        classification_of(a, cutoff) == classification_of(b, cutoff),
{
    lemma_tier_count_by_shape(a, b, cutoff, Tier::Instant);
    lemma_tier_count_by_shape(a, b, cutoff, Tier::Slow);
    lemma_tier_count_by_shape(a, b, cutoff, Tier::PowerLaw);
}

proof fn lemma_tier_count_by_shape(a: Seq<DecayTerm>, b: Seq<DecayTerm>, cutoff: Binary32, tier: Tier)
    requires
        a.len() == b.len(),
        forall|i: int| 0 <= i < a.len() ==> a[i].tier_spec(cutoff) == b[i].tier_spec(cutoff),
    ensures
        tier_count(a, cutoff, tier) == tier_count(b, cutoff, tier),
    decreases a.len(),
{
    if a.len() > 0 {
        lemma_tier_count_by_shape(a.drop_last(), b.drop_last(), cutoff, tier);
    }
}

/// A term list that a classification stands for: its instantaneous
/// exponentials (all with time constant `fast`), then its slow ones (all with
/// `slow`), then one power law if it has any. Amplitudes and power-law
/// parameters are zero: they play no part in classification.
pub open spec fn representative_terms(
    class: DecayClassification,
    fast: Binary32,
    slow: Binary32,
) -> Seq<DecayTerm> {
    let zero = Binary32 { bits: 0 };
    Seq::new(class.instant_exp_count as nat, |i: int| DecayTerm::Exponential { amplitude: zero, tau: fast })
        + Seq::new(
        class.slow_exp_count as nat,
        |i: int| DecayTerm::Exponential { amplitude: zero, tau: slow },
    ) + if class.has_power_law {
        seq![DecayTerm::PowerLaw { amplitude: zero, alpha: zero, beta: zero }]
    } else {
        Seq::<DecayTerm>::empty()
    }
}

proof fn lemma_tier_count_uniform(n: nat, term: DecayTerm, cutoff: Binary32, tier: Tier)
    ensures
        tier_count(Seq::new(n, |i: int| term), cutoff, tier) == if term.tier_spec(cutoff) == tier {
            n
        } else {
            0
        },
    decreases n,
{
    if n > 0 {
        assert(Seq::new(n, |i: int| term).drop_last() =~= Seq::new((n - 1) as nat, |i: int| term));
        lemma_tier_count_uniform((n - 1) as nat, term, cutoff, tier);
    }
}

/// Tier counts add over concatenation.
pub proof fn lemma_tier_count_concat(a: Seq<DecayTerm>, b: Seq<DecayTerm>, cutoff: Binary32, tier: Tier)
    ensures
        tier_count(a + b, cutoff, tier) == tier_count(a, cutoff, tier) + tier_count(b, cutoff, tier),
    decreases b.len(),
{
    if b.len() == 0 {
        assert(a + b =~= a);
    } else {
        assert((a + b).drop_last() =~= a + b.drop_last());
        lemma_tier_count_concat(a, b.drop_last(), cutoff, tier);
    }
}

/// Classification is idempotent: classifying the terms that a classification
/// stands for gives that classification back.
pub proof fn lemma_classification_idempotent(
    terms: Seq<DecayTerm>,
    cutoff: Binary32,
    fast: Binary32,
    slow: Binary32,
)
    requires
        terms.len() <= usize::MAX,
        fast.lt_spec(cutoff),
        !slow.lt_spec(cutoff),
    ensures
        classification_of(representative_terms(classification_of(terms, cutoff), fast, slow), cutoff)
            == classification_of(terms, cutoff),
{
    let class = classification_of(terms, cutoff);
    lemma_tiers_partition(terms, cutoff);
    let zero = Binary32 { bits: 0 };
    let fast_term = DecayTerm::Exponential { amplitude: zero, tau: fast };
    let slow_term = DecayTerm::Exponential { amplitude: zero, tau: slow };
    let law = DecayTerm::PowerLaw { amplitude: zero, alpha: zero, beta: zero };
    let a = Seq::new(class.instant_exp_count as nat, |i: int| fast_term);
    let b = Seq::new(class.slow_exp_count as nat, |i: int| slow_term);
    let c = if class.has_power_law {
        seq![law]
    } else {
        Seq::<DecayTerm>::empty()
    };
    assert(representative_terms(class, fast, slow) =~= a + b + c);
    assert(c =~= Seq::new(
        if class.has_power_law {
            1nat
        } else {
            0nat
        },
        |i: int| law,
    ));
    assert forall|tier: Tier|
        tier_count(a + b + c, cutoff, tier) == tier_count(a, cutoff, tier) + tier_count(b, cutoff, tier)
            + tier_count(c, cutoff, tier) by {
        lemma_tier_count_concat(a + b, c, cutoff, tier);
        lemma_tier_count_concat(a, b, cutoff, tier);
    }
    assert forall|tier: Tier|
        tier_count(a, cutoff, tier) == (if tier == Tier::Instant {
            class.instant_exp_count as nat
        } else {
            0
        }) && tier_count(b, cutoff, tier) == (if tier == Tier::Slow {
            class.slow_exp_count as nat
        } else {
            0
        }) && tier_count(c, cutoff, tier) == (if tier == Tier::PowerLaw && class.has_power_law {
            1nat
        } else {
            0
        }) by {
        lemma_tier_count_uniform(class.instant_exp_count as nat, fast_term, cutoff, tier);
        lemma_tier_count_uniform(class.slow_exp_count as nat, slow_term, cutoff, tier);
        lemma_tier_count_uniform(
            if class.has_power_law {
                1nat
            } else {
                0nat
            },
            law,
            cutoff,
            tier,
        );
    }
}

} // verus!
