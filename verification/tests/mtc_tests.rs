use lau_quantum_topology::mtc::{fibonacci_fusion_rules, fusion_coefficient, ising_fusion_rules};
use lau_quantum_topology::anyon::fuse_fibonacci;
use lau_quantum_topology::{AnyonType, FusionRule};

#[test]
fn mtc_test_fibonacci_fusion() {
    let rules = fibonacci_fusion_rules();
    assert_eq!(fusion_coefficient(&rules, "τ", "τ", "1"), 1);
    assert_eq!(fusion_coefficient(&rules, "τ", "τ", "τ"), 1);
    assert_eq!(fusion_coefficient(&rules, "1", "τ", "τ"), 1);
}

#[test]
fn mtc_test_ising_fusion() {
    let rules = ising_fusion_rules();
    assert_eq!(fusion_coefficient(&rules, "σ", "σ", "1"), 1);
    assert_eq!(fusion_coefficient(&rules, "σ", "σ", "ψ"), 1);
    assert_eq!(fusion_coefficient(&rules, "ψ", "ψ", "1"), 1);
    assert_eq!(fusion_coefficient(&rules, "σ", "ψ", "σ"), 1);
}

#[test]
fn fusion_coefficients_absent_are_zero() {
    let fib = fibonacci_fusion_rules();
    assert_eq!(fusion_coefficient(&fib, "1", "τ", "1"), 0);
    assert_eq!(fusion_coefficient(&fib, "τ", "σ", "τ"), 0);
    assert_eq!(fusion_coefficient(&fib, "", "", ""), 0);
    let ising = ising_fusion_rules();
    assert_eq!(fusion_coefficient(&ising, "σ", "σ", "σ"), 0);
    assert_eq!(fusion_coefficient(&ising, "ψ", "ψ", "ψ"), 0);
    assert_eq!(fusion_coefficient(&ising, "σ", "ψ", "ψ"), 0);
}

#[test]
fn fusion_coefficients_are_commutative() {
    let labels = ["1", "τ", "ψ", "σ", "x"];
    let tables = [fibonacci_fusion_rules(), ising_fusion_rules()];
    for rules in tables.iter() {
        for a in labels.iter() {
            for b in labels.iter() {
                for c in labels.iter() {
                    assert_eq!(
                        fusion_coefficient(rules, a, b, c),
                        fusion_coefficient(rules, b, a, c)
                    );
                }
            }
        }
    }
}

#[test]
fn fusion_rule_constructors() {
    let r = FusionRule::simple("a", "b", "c");
    assert_eq!(r.a, "a");
    assert_eq!(r.b, "b");
    assert_eq!(r.outcomes, vec![("c".to_string(), 1)]);
    let m = FusionRule::multi("x", "y", vec![("p".to_string(), 2), ("q".to_string(), 3)]);
    assert_eq!(m.a, "x");
    assert_eq!(m.b, "y");
    assert_eq!(m.outcomes.len(), 2);
}

#[test]
fn first_listed_multiplicity_wins() {
    let rules = vec![
        FusionRule::multi("a", "a", vec![("b".to_string(), 2), ("c".to_string(), 5)]),
        FusionRule::multi("a", "a", vec![("c".to_string(), 7), ("d".to_string(), 4)]),
    ];
    assert_eq!(fusion_coefficient(&rules, "a", "a", "b"), 2);
    assert_eq!(fusion_coefficient(&rules, "a", "a", "c"), 5);
    // a rule for (a, a) that lacks "d" does not stop the search
    assert_eq!(fusion_coefficient(&rules, "a", "a", "d"), 4);
    assert_eq!(fusion_coefficient(&[], "a", "a", "d"), 0);
}

#[test]
fn fibonacci_anyon_fusion_matches_category() {
    let rules = fibonacci_fusion_rules();
    let label = |t: &AnyonType| if *t == AnyonType::Vacuum { "1" } else { "τ" };
    let types = [AnyonType::Vacuum, AnyonType::Fibonacci];
    for a in types.iter() {
        for b in types.iter() {
            let outcomes = fuse_fibonacci(a, b).outcomes;
            for c in types.iter() {
                let n = fusion_coefficient(&rules, label(a), label(b), label(c));
                assert_eq!(outcomes.contains(c), n == 1);
            }
        }
    }
}
