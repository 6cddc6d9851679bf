use phosphor::accumulation::{accum_layer_count, LayerLayout};
use phosphor::binary32::Binary32;
use phosphor::decay::{classify_decay_terms, DecayClassification, DecayTerm, Tier, TAU_CUTOFF_BITS};

fn b(v: f32) -> Binary32 {
    Binary32::from_bits(v.to_bits())
}

fn f(v: Binary32) -> f32 {
    f32::from_bits(v.to_bits())
}

fn exp(amplitude: f32, tau: f32) -> DecayTerm {
    DecayTerm::Exponential {
        amplitude: b(amplitude),
        tau: b(tau),
    }
}

fn p31_terms() -> Vec<DecayTerm> {
    vec![
        DecayTerm::PowerLaw {
            amplitude: b(2.1e-4),
            alpha: b(5.5e-6),
            beta: b(1.1),
        },
        exp(90.0, 31.8e-9),
        exp(100.0, 227e-9),
        exp(37.0, 1.06e-6),
    ]
}

#[test]
fn decay_term_exponential_fields() {
    let term = exp(6.72, 0.00288);
    match term {
        DecayTerm::Exponential { amplitude, tau } => {
            assert!((f(amplitude) - 6.72).abs() < 1e-6);
            assert!((f(tau) - 0.00288).abs() < 1e-8);
        }
        _ => panic!("expected Exponential"),
    }
}

#[test]
fn decay_term_power_law_fields() {
    let term = DecayTerm::PowerLaw {
        amplitude: b(2.1e-4),
        alpha: b(5.5e-6),
        beta: b(1.1),
    };
    match term {
        DecayTerm::PowerLaw {
            amplitude,
            alpha,
            beta,
        } => {
            assert!((f(amplitude) - 2.1e-4).abs() < 1e-10);
            assert!((f(alpha) - 5.5e-6).abs() < 1e-12);
            assert!((f(beta) - 1.1).abs() < 1e-6);
        }
        _ => panic!("expected PowerLaw"),
    }
}

#[test]
fn classify_p1_all_slow_exponential() {
    let terms = vec![exp(6.72, 0.00288), exp(1.0, 0.0151)];
    let class = classify_decay_terms(&terms, b(1e-4));
    assert_eq!(class.instant_exp_count, 0);
    assert_eq!(class.slow_exp_count, 2);
    assert!(!class.has_power_law);
}

#[test]
fn classify_p31_power_law_plus_instant() {
    let class = classify_decay_terms(&p31_terms(), b(1e-4));
    assert_eq!(class.instant_exp_count, 3);
    assert_eq!(class.slow_exp_count, 0);
    assert!(class.has_power_law);
}

#[test]
fn p1_decay_matches_selomulya() {
    let terms = vec![exp(6.72, 0.00288), exp(1.0, 0.0151)];

    let sum_a: f32 = terms
        .iter()
        .map(|t| match t {
            DecayTerm::Exponential { amplitude, .. } => f(*amplitude),
            _ => 0.0,
        })
        .sum();

    let at = |t: f32| -> f32 {
        terms
            .iter()
            .map(|term| match term {
                DecayTerm::Exponential { amplitude, tau } => {
                    (f(*amplitude) / sum_a) * (-t / f(*tau)).exp()
                }
                _ => 0.0,
            })
            .sum::<f32>()
    };

    // At t=0, normalized intensity = 1.0
    assert!((at(0.0) - 1.0).abs() < 0.01);

    // Bi-exponential with the fast component (tau=2.88ms) dominant.
    // At 8ms (~2.8 fast time constants), most energy has decayed.
    let at_8ms = at(0.008);
    assert!(at_8ms > 0.05 && at_8ms < 0.3, "at 8ms: {at_8ms}");

    // The same terms classify as two slow exponentials on two layers.
    let class = classify_decay_terms(&terms, b(1e-4));
    assert_eq!(
        class,
        DecayClassification {
            instant_exp_count: 0,
            slow_exp_count: 2,
            has_power_law: false
        }
    );
    assert_eq!(class.accum_layers(), 2);
}

#[test]
fn p31_classification_correct() {
    let class = classify_decay_terms(&p31_terms(), b(1e-4));
    assert_eq!(class.instant_exp_count, 3);
    assert_eq!(class.slow_exp_count, 0);
    assert!(class.has_power_law);
    assert_eq!(class.accum_layers(), 2);
}

#[test]
fn p31_power_law_long_tail() {
    // ZnS:Cu power-law: I(t) = A / (t + alpha)^beta
    let alpha: f32 = 5.5e-6;
    let beta: f32 = 1.1;

    // At t = 1ms (~180x alpha): still significant
    let at_1ms = (alpha / (0.001 + alpha)).powf(beta);
    assert!(at_1ms > 1e-4, "at 1ms: {at_1ms}");

    // At t = 1s: very small but nonzero
    let at_1s = (alpha / (1.0 + alpha)).powf(beta);
    assert!(at_1s < 1e-5, "at 1s: {at_1s}");
    assert!(at_1s > 0.0, "must be nonzero");

    // The term that carries this tail is routed to the power-law tier.
    let term = DecayTerm::PowerLaw {
        amplitude: b(2.1e-4),
        alpha: b(alpha),
        beta: b(beta),
    };
    assert_eq!(term.tier(b(1e-4)), Tier::PowerLaw);
}

#[test]
fn p1_layer_count() {
    // Two slow exponentials, no power law, nothing instantaneous.
    assert_eq!(accum_layer_count(2, false, false), 2);
}

#[test]
fn p31_layer_count() {
    // The power-law pair and the instantaneous slot.
    assert_eq!(accum_layer_count(0, true, true), 3);
}

#[test]
fn p15_layer_count() {
    // The instantaneous slot alone.
    assert_eq!(accum_layer_count(0, false, true), 1);
}

#[test]
fn cutoff_constant_is_a_tenth_of_a_millisecond() {
    assert_eq!(TAU_CUTOFF_BITS, 1e-4f32.to_bits());
}

#[test]
fn tiers_follow_the_cutoff() {
    let cutoff = b(1e-4);
    assert_eq!(exp(1.0, 0.99e-4).tier(cutoff), Tier::Instant);
    assert_eq!(exp(1.0, 1e-4).tier(cutoff), Tier::Slow);
    assert_eq!(exp(1.0, 1.01e-4).tier(cutoff), Tier::Slow);
    assert_eq!(exp(1.0, f32::NAN).tier(cutoff), Tier::Slow);
    assert_eq!(exp(1.0, -1.0).tier(cutoff), Tier::Instant);
    assert_eq!(exp(1.0, 1.0).tier(b(f32::NAN)), Tier::Slow);
}

#[test]
fn counts_add_up_to_the_number_of_terms() {
    let terms = p31_terms();
    let class = classify_decay_terms(&terms, b(1e-4));
    let flag = if class.has_power_law { 1 } else { 0 };
    assert_eq!(class.instant_exp_count + class.slow_exp_count + flag, terms.len());
}

#[test]
fn two_power_laws_count_as_one_flag() {
    let law = DecayTerm::PowerLaw {
        amplitude: b(1.0),
        alpha: b(1e-5),
        beta: b(1.0),
    };
    let class = classify_decay_terms(&[law, law, exp(1.0, 1.0)], b(1e-4));
    assert_eq!(class.instant_exp_count, 0);
    assert_eq!(class.slow_exp_count, 1);
    assert!(class.has_power_law);
    assert_eq!(class.accum_layers(), 3);
}

#[test]
fn empty_term_list_classifies_to_nothing() {
    let class = classify_decay_terms(&[], b(1e-4));
    assert_eq!(
        class,
        DecayClassification {
            instant_exp_count: 0,
            slow_exp_count: 0,
            has_power_law: false
        }
    );
    assert_eq!(class.accum_layers(), 0);
    assert!(!class.has_instant());
}

#[test]
fn classification_is_idempotent_on_representatives() {
    let cutoff = b(1e-4);
    let class = classify_decay_terms(&p31_terms(), cutoff);
    let mut again = Vec::new();
    for _ in 0..class.instant_exp_count {
        again.push(exp(0.0, 1e-6));
    }
    for _ in 0..class.slow_exp_count {
        again.push(exp(0.0, 1.0));
    }
    if class.has_power_law {
        again.push(DecayTerm::PowerLaw {
            amplitude: b(0.0),
            alpha: b(0.0),
            beta: b(0.0),
        });
    }
    assert_eq!(classify_decay_terms(&again, cutoff), class);
}

#[test]
fn layer_count_follows_the_classification() {
    for terms in [p31_terms(), vec![exp(6.72, 0.00288), exp(1.0, 0.0151)], vec![]] {
        let class = classify_decay_terms(&terms, b(1e-4));
        let layers = accum_layer_count(
            class.slow_exp_count,
            class.has_power_law,
            class.instant_exp_count > 0,
        );
        let expected = class.slow_exp_count
            + if class.has_power_law { 2 } else { 0 }
            + if class.instant_exp_count > 0 { 1 } else { 0 };
        assert_eq!(layers as usize, expected);
        assert_eq!(LayerLayout::for_classification(&class).layers, layers);
    }
}

#[test]
fn layout_orders_the_regions() {
    let terms = vec![
        exp(1.0, 1.0),
        exp(1.0, 2.0),
        exp(1.0, 1e-9),
        DecayTerm::PowerLaw {
            amplitude: b(1.0),
            alpha: b(1e-5),
            beta: b(1.0),
        },
    ];
    let class = classify_decay_terms(&terms, b(1e-4));
    let layout = LayerLayout::for_classification(&class);
    assert_eq!(layout.slow_exp_start, 0);
    assert_eq!(layout.slow_exp_count, 2);
    assert!(layout.has_power_law);
    assert_eq!(layout.power_law_layer, 2);
    assert_eq!(layout.elapsed_layer, 3);
    assert!(layout.has_instant);
    assert_eq!(layout.instant_layer, 4);
    assert_eq!(layout.layers, 5);
}

#[test]
fn layout_without_power_law_or_instant() {
    let class = classify_decay_terms(&[exp(1.0, 1.0)], b(1e-4));
    let layout = LayerLayout::for_classification(&class);
    assert_eq!(layout.slow_exp_count, 1);
    assert!(!layout.has_power_law);
    assert_eq!(layout.power_law_layer, 0);
    assert_eq!(layout.elapsed_layer, 0);
    assert!(!layout.has_instant);
    assert_eq!(layout.instant_layer, 0);
    assert_eq!(layout.layers, 1);
}
