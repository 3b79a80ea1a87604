use lau_quantum_topology::anyon::{fuse_fibonacci, fuse_ising, VACUUM};
use lau_quantum_topology::{Anyon, AnyonType};

#[test]
fn anyon_test_fibonacci_fusion() {
    let result = fuse_fibonacci(&AnyonType::Fibonacci, &AnyonType::Fibonacci);
    assert_eq!(result.outcomes.len(), 2);
    assert!(result.outcomes.contains(&AnyonType::Vacuum));
    assert!(result.outcomes.contains(&AnyonType::Fibonacci));
}

#[test]
fn test_fibonacci_fusion_with_vacuum() {
    let result = fuse_fibonacci(&AnyonType::Vacuum, &AnyonType::Fibonacci);
    assert_eq!(result.outcomes, vec![AnyonType::Fibonacci]);

    let result2 = fuse_fibonacci(&AnyonType::Fibonacci, &AnyonType::Vacuum);
    assert_eq!(result2.outcomes, vec![AnyonType::Fibonacci]);
}

#[test]
fn test_vacuum_fusion() {
    let result = fuse_fibonacci(&AnyonType::Vacuum, &AnyonType::Vacuum);
    assert_eq!(result.outcomes, vec![AnyonType::Vacuum]);
}

#[test]
fn anyon_test_ising_fusion() {
    let result = fuse_ising(&AnyonType::Ising, &AnyonType::Ising);
    assert_eq!(result.outcomes.len(), 2);
    assert!(result.outcomes.contains(&AnyonType::Vacuum));
    assert!(result.outcomes.contains(&AnyonType::Ising));
}

#[test]
fn fibonacci_fusion_order_and_mismatched_models() {
    let result = fuse_fibonacci(&AnyonType::Fibonacci, &AnyonType::Fibonacci);
    assert_eq!(result.outcomes, vec![AnyonType::Vacuum, AnyonType::Fibonacci]);
    assert!(fuse_fibonacci(&AnyonType::Fibonacci, &AnyonType::Ising).outcomes.is_empty());
    assert!(fuse_fibonacci(&AnyonType::Ising, &AnyonType::Ising).outcomes.is_empty());
    assert_eq!(
        fuse_fibonacci(&AnyonType::Ising, &AnyonType::Vacuum).outcomes,
        vec![AnyonType::Ising]
    );
}

#[test]
fn ising_fusion_order_and_mismatched_models() {
    let result = fuse_ising(&AnyonType::Ising, &AnyonType::Ising);
    assert_eq!(result.outcomes, vec![AnyonType::Vacuum, AnyonType::Ising]);
    assert!(fuse_ising(&AnyonType::Ising, &AnyonType::Fibonacci).outcomes.is_empty());
    assert!(fuse_ising(&AnyonType::Fibonacci, &AnyonType::Fibonacci).outcomes.is_empty());
    assert_eq!(fuse_ising(&AnyonType::Vacuum, &AnyonType::Ising).outcomes, vec![AnyonType::Ising]);
    assert_eq!(fuse_ising(&AnyonType::Vacuum, &AnyonType::Vacuum).outcomes, vec![AnyonType::Vacuum]);
}

#[test]
fn fusion_is_commutative_on_all_pairs() {
    let all = [AnyonType::Vacuum, AnyonType::Fibonacci, AnyonType::Ising];
    for a in all.iter() {
        for b in all.iter() {
            assert_eq!(fuse_fibonacci(a, b).outcomes, fuse_fibonacci(b, a).outcomes);
            assert_eq!(fuse_ising(a, b).outcomes, fuse_ising(b, a).outcomes);
        }
    }
}

#[test]
fn vacuum_is_fusion_unit() {
    let all = [AnyonType::Vacuum, AnyonType::Fibonacci, AnyonType::Ising];
    for x in all.iter() {
        assert_eq!(fuse_fibonacci(&AnyonType::Vacuum, x).outcomes, vec![*x]);
        assert_eq!(fuse_fibonacci(x, &AnyonType::Vacuum).outcomes, vec![*x]);
        assert_eq!(fuse_ising(&AnyonType::Vacuum, x).outcomes, vec![*x]);
        assert_eq!(fuse_ising(x, &AnyonType::Vacuum).outcomes, vec![*x]);
    }
}

#[test]
fn anyon_constructors() {
    let t = Anyon::fib("t1");
    assert_eq!(t.anyon_type, AnyonType::Fibonacci);
    assert_eq!(t.label, "t1");
    let s = Anyon::ising("s");
    assert_eq!(s.anyon_type, AnyonType::Ising);
    assert_eq!(s.label, "s");
    let v = Anyon::vacuum();
    assert_eq!(v.anyon_type, AnyonType::Vacuum);
    assert_eq!(v.label, VACUUM);
    let n = Anyon::new(AnyonType::Ising, "");
    assert_eq!(n.anyon_type, AnyonType::Ising);
    assert_eq!(n.label, "");
}
