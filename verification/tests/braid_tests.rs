use lau_quantum_topology::{Braid, BraidGenerator, BraidWord};

#[test]
fn test_braid_identity() {
    let bw = BraidWord::identity(3);
    assert_eq!(bw.generators.len(), 0);
    assert!(bw.is_valid());
}

#[test]
fn test_braid_generator_inverse() {
    let g = BraidGenerator::sigma(2);
    let gi = g.inverse();
    assert_eq!(gi.index, 2);
    assert!(!gi.positive);
    assert_eq!(gi.inverse(), g);
}

#[test]
fn test_braid_word_inverse() {
    let mut bw = BraidWord::identity(3);
    bw.sigma(0).sigma(1).sigma_inv(0);
    let inv = bw.inverse();
    assert_eq!(inv.generators.len(), 3);
    assert_eq!(inv.generators[0], BraidGenerator::sigma(0));
    assert_eq!(inv.generators[1], BraidGenerator::sigma_inv(1));
    assert_eq!(inv.generators[2], BraidGenerator::sigma_inv(0));
}

#[test]
fn test_braid_validity() {
    let mut bw = BraidWord::identity(3);
    bw.sigma(0).sigma(1);
    assert!(bw.is_valid());

    let bw2 = BraidWord { n: 3, generators: vec![BraidGenerator::sigma(2)] };
    assert!(!bw2.is_valid());
}

#[test]
fn test_exponent_sum() {
    let mut bw = BraidWord::identity(3);
    bw.sigma(0).sigma(1).sigma_inv(0);
    assert_eq!(bw.exponent_sum(), 1);
}

#[test]
fn test_permutation() {
    let mut bw = BraidWord::identity(3);
    bw.sigma(0);
    let perm = bw.to_permutation();
    assert_eq!(perm, vec![1, 0, 2]);
}

#[test]
fn test_compose() {
    let mut bw1 = BraidWord::identity(3);
    bw1.sigma(0);
    let mut bw2 = BraidWord::identity(3);
    bw2.sigma(1);
    let composed = bw1.compose(&bw2);
    assert_eq!(composed.generators.len(), 2);
}

#[test]
fn test_braid_display() {
    let mut bw = BraidWord::identity(3);
    bw.sigma(0).sigma(1);
    let b = Braid::new(bw);
    let s = b.to_string();
    assert!(s.contains("σ0"));
    assert!(s.contains("σ1"));
}

#[test]
fn test_identity_trivial() {
    let mut bw = BraidWord::identity(3);
    bw.sigma(0).sigma_inv(0);
    assert!(bw.is_identity_trivial());

    let mut bw2 = BraidWord::identity(3);
    bw2.sigma(0);
    assert!(!bw2.is_identity_trivial());
}

#[test]
fn braid_display_exact_text() {
    let mut bw = BraidWord::identity(13);
    bw.sigma(0).sigma_inv(1).sigma(11);
    assert_eq!(Braid::new(bw).to_string(), "B13(σ0 σ1⁻¹ σ11)");
    assert_eq!(Braid::identity(4).to_string(), "B4()");
    assert_eq!(BraidGenerator::sigma_inv(10).to_string(), "σ10⁻¹");
    assert_eq!(BraidGenerator::sigma(7).to_string(), "σ7");
}

#[test]
fn compose_keeps_order_and_strands() {
    let mut bw1 = BraidWord::identity(4);
    bw1.sigma(0).sigma_inv(2);
    let mut bw2 = BraidWord::identity(4);
    bw2.sigma(1);
    let composed = bw1.compose(&bw2);
    assert_eq!(composed.n, 4);
    assert_eq!(
        composed.generators,
        vec![BraidGenerator::sigma(0), BraidGenerator::sigma_inv(2), BraidGenerator::sigma(1)]
    );
}

#[test]
fn word_composed_with_inverse_is_trivial() {
    let mut bw = BraidWord::identity(5);
    bw.sigma(0).sigma(3).sigma_inv(1).sigma(2).sigma(0);
    assert!(!bw.is_identity_trivial());
    let both = bw.compose(&bw.inverse());
    assert_eq!(both.exponent_sum(), 0);
    assert_eq!(both.to_permutation(), vec![0, 1, 2, 3, 4]);
    assert!(both.is_identity_trivial());
    assert_eq!(bw.inverse().exponent_sum(), -bw.exponent_sum());
    let back = bw.inverse().inverse();
    assert_eq!(back.generators, bw.generators);
}

#[test]
fn permutation_respects_braid_relations() {
    // far commutativity: σ0 σ2 and σ2 σ0 in B4
    let mut a = BraidWord::identity(4);
    a.sigma(1).sigma(0).sigma_inv(2);
    let mut b = BraidWord::identity(4);
    b.sigma(1).sigma_inv(2).sigma(0);
    assert_eq!(a.to_permutation(), b.to_permutation());
    assert_eq!(a.exponent_sum(), b.exponent_sum());
    // Yang-Baxter: σ0 σ1 σ0 and σ1 σ0 σ1 in B3
    let mut c = BraidWord::identity(3);
    c.sigma(0).sigma(1).sigma(0);
    let mut d = BraidWord::identity(3);
    d.sigma(1).sigma(0).sigma(1);
    assert_eq!(c.to_permutation(), vec![2, 1, 0]);
    assert_eq!(c.to_permutation(), d.to_permutation());
    assert_eq!(c.exponent_sum(), 3);
    assert_eq!(d.exponent_sum(), 3);
}

#[test]
fn permutation_and_exponent_sum_of_compose() {
    let mut bw1 = BraidWord::identity(3);
    bw1.sigma(0);
    let mut bw2 = BraidWord::identity(3);
    bw2.sigma_inv(1).sigma_inv(1).sigma_inv(1);
    let c = bw1.compose(&bw2);
    assert_eq!(c.exponent_sum(), bw1.exponent_sum() + bw2.exponent_sum());
    assert_eq!(c.exponent_sum(), -2);
    // [0,1,2] -> swap(0,1) -> [1,0,2] -> swap(1,2) three times -> [1,2,0]
    assert_eq!(c.to_permutation(), vec![1, 2, 0]);
}

#[test]
fn validity_edge_cases() {
    assert!(BraidWord::identity(0).is_valid());
    assert!(BraidWord::identity(1).is_valid());
    let w = BraidWord { n: 1, generators: vec![BraidGenerator::sigma(0)] };
    assert!(!w.is_valid());
    let w = BraidWord { n: 2, generators: vec![BraidGenerator::sigma_inv(0)] };
    assert!(w.is_valid());
    assert_eq!(BraidWord::identity(0).to_permutation(), Vec::<usize>::new());
    assert!(BraidWord::identity(0).is_identity_trivial());
}

#[test]
fn nonzero_exponent_sum_is_not_trivial_even_when_invalid() {
    // the exponent sum already rules the word out
    let w = BraidWord { n: 2, generators: vec![BraidGenerator::sigma(5)] };
    assert!(!w.is_identity_trivial());
}

#[test]
fn braid_constructors() {
    let b = Braid::identity(3);
    assert_eq!(b.word.n, 3);
    assert!(b.word.generators.is_empty());
    let mut bw = BraidWord::identity(2);
    bw.sigma(0).sigma(0);
    let b = Braid::new(bw);
    assert_eq!(b.word.exponent_sum(), 2);
    assert_eq!(b.word.to_permutation(), vec![0, 1]);
}
