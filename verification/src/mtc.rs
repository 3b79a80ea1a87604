//! Fusion rules of modular tensor categories.
//!
//! A fusion rule a × b = Σ N_{ab}^c c lists the outcomes c of fusing the
//! simple objects a and b, each with its multiplicity N_{ab}^c. Objects are
//! named by their labels.
use crate::anyon::{fibonacci_fusion, AnyonType};
use vstd::prelude::*;

verus! {

/// A fusion rule: a × b = Σ N_{ab}^c c.
#[derive(Debug, Clone)]
pub struct FusionRule {
    pub a: String,
    pub b: String,
    /// (c, multiplicity) pairs.
    pub outcomes: Vec<(String, usize)>,
}

/// A fusion rule as plain values: the labels a and b and the (label,
/// multiplicity) pairs of the outcomes.
pub type FusionRuleView = (Seq<char>, Seq<char>, Seq<(Seq<char>, usize)>);

/// The view of an outcome pair: its label's characters and its multiplicity.
pub open spec fn outcome_view(o: (String, usize)) -> (Seq<char>, usize) {
    (o.0@, o.1)
}

impl View for FusionRule {
    type V = FusionRuleView;

    open spec fn view(&self) -> FusionRuleView {
        (self.a@, self.b@, self.outcomes@.map_values(|o: (String, usize)| outcome_view(o)))
    }
}

/// The views of a list of rules.
pub open spec fn rules_view(rules: Seq<FusionRule>) -> Seq<FusionRuleView> {
    rules.map_values(|r: FusionRule| r@)
}

/// The multiplicity listed for the outcome labelled `c`: that of the first
/// pair with this label, or none when no pair has it.
pub open spec fn outcome_multiplicity(outcomes: Seq<(Seq<char>, usize)>, c: Seq<char>) -> Option<
    usize,
>
    decreases outcomes.len(),
{
    if outcomes.len() == 0 {
        None
    } else if outcomes[0].0 == c {
        Some(outcomes[0].1)
    } else {
        outcome_multiplicity(outcomes.drop_first(), c)
    }
}

/// The fusion coefficient N_{ab}^c read from a list of rules: the multiplicity
/// of `c` in the first rule for (a, b) that lists `c`, or 0 when none does.
pub open spec fn fusion_coefficient_of(
    rules: Seq<FusionRuleView>,
    a: Seq<char>,
    b: Seq<char>,
    c: Seq<char>,
) -> nat
    decreases rules.len(),
{
    if rules.len() == 0 {
        0
    } else if rules[0].0 == a && rules[0].1 == b && outcome_multiplicity(rules[0].2, c) is Some {
        outcome_multiplicity(rules[0].2, c)->0 as nat
    } else {
        fusion_coefficient_of(rules.drop_first(), a, b, c)
    }
}

impl FusionRule {
    /// A simple fusion rule a × b → c with multiplicity 1.
    pub fn simple(a: &str, b: &str, c: &str) -> (r: FusionRule)
        ensures
            r.a@ == a@,
            r.b@ == b@,
            r.outcomes@.len() == 1,
            r.outcomes@[0].0@ == c@,
            r.outcomes@[0].1 == 1,
            r@ == (a@, b@, seq![(c@, 1usize)]),
    {
        let mut outcomes: Vec<(String, usize)> = Vec::new();
        outcomes.push((c.to_owned(), 1));
        let r = FusionRule { a: a.to_owned(), b: b.to_owned(), outcomes };
        assert(r@.2 =~= seq![(c@, 1usize)]);
        r
    }

    /// A fusion rule with the given outcomes and multiplicities.
    pub fn multi(a: &str, b: &str, outcomes: Vec<(String, usize)>) -> (r: FusionRule)
        ensures
            r.a@ == a@,
            r.b@ == b@,
            r.outcomes == outcomes,
    {
        FusionRule { a: a.to_owned(), b: b.to_owned(), outcomes }
    }
}

/// The fusion coefficient N_{ab}^c listed in `rules`; 0 when no rule for
/// (a, b) lists `c`.
pub fn fusion_coefficient(rules: &[FusionRule], a: &str, b: &str, c: &str) -> (m: usize)
    ensures
        m == fusion_coefficient_of(rules_view(rules@), a@, b@, c@),
{
    let a_label = a.to_owned();
    let b_label = b.to_owned();
    let c_label = c.to_owned();
    let ghost all = rules_view(rules@);
    let mut i: usize = 0;
    assert(all.skip(0) =~= all);
    while i < rules.len()
        invariant
            i <= rules@.len(),
            all == rules_view(rules@),
            a_label@ == a@,
            b_label@ == b@,
            c_label@ == c@,
            fusion_coefficient_of(all, a@, b@, c@) == fusion_coefficient_of(
                all.skip(i as int),
                a@,
                b@,
                c@,
            ),
        decreases rules@.len() - i,
    {
        let rule = &rules[i];
        proof {
            assert(all.skip(i as int)[0] == rule@);
            assert(all.skip(i as int).drop_first() =~= all.skip(i + 1));
        }
        if rule.a == a_label && rule.b == b_label {
            let ghost outs = rule@.2;
            let mut j: usize = 0;
            assert(outs.skip(0) =~= outs);
            while j < rule.outcomes.len()
                invariant
                    j <= rule.outcomes@.len(),
                    outs == rule@.2,
                    all == rules_view(rules@),
                    i < rules@.len(),
                    all.skip(i as int)[0] == rule@,
                    rule.a@ == a@,
                    rule.b@ == b@,
                    c_label@ == c@,
                    fusion_coefficient_of(all, a@, b@, c@) == fusion_coefficient_of(
                        all.skip(i as int),
                        a@,
                        b@,
                        c@,
                    ),
                    outcome_multiplicity(outs, c@) == outcome_multiplicity(outs.skip(j as int), c@),
                decreases rule.outcomes@.len() - j,
            {
                proof {
                    assert(outs.skip(j as int)[0] == outcome_view(rule.outcomes@[j as int]));
                    assert(outs.skip(j as int).drop_first() =~= outs.skip(j + 1));
                }
                if rule.outcomes[j].0 == c_label {
                    return rule.outcomes[j].1;
                }
                j = j + 1;
            }
            assert(outs.skip(j as int) =~= Seq::<(Seq<char>, usize)>::empty());
        }
        i = i + 1;
    }
    0
}


/// The label of the unit object, `1`.
pub open spec fn unit_label() -> Seq<char> {
    seq!['1']
}

/// The label of the Fibonacci anyon, `τ`.
pub open spec fn tau_label() -> Seq<char> {
    seq!['\u{3c4}']
}

/// The label of the Ising fermion, `ψ`.
pub open spec fn psi_label() -> Seq<char> {
    seq!['\u{3c8}']
}

/// The label of the Ising anyon, `σ`.
pub open spec fn sigma_label() -> Seq<char> {
    seq!['\u{3c3}']
}

/// The fusion rules of the Fibonacci category, in the order they are listed:
/// 1 × 1 = 1, 1 × τ = τ, τ × 1 = τ, τ × τ = 1 + τ.
pub open spec fn fibonacci_table() -> Seq<FusionRuleView> {
    seq![
        (unit_label(), unit_label(), seq![(unit_label(), 1usize)]),
        (unit_label(), tau_label(), seq![(tau_label(), 1usize)]),
        (tau_label(), unit_label(), seq![(tau_label(), 1usize)]),
        (tau_label(), tau_label(), seq![(unit_label(), 1usize), (tau_label(), 1usize)]),
    ]
}

/// The fusion rules of the Ising category, in the order they are listed:
/// 1 × 1 = 1, 1 × ψ = ψ, ψ × 1 = ψ, 1 × σ = σ, σ × 1 = σ, ψ × ψ = 1,
/// σ × ψ = σ, ψ × σ = σ, σ × σ = 1 + ψ.
pub open spec fn ising_table() -> Seq<FusionRuleView> {
    seq![
        (unit_label(), unit_label(), seq![(unit_label(), 1usize)]),
        (unit_label(), psi_label(), seq![(psi_label(), 1usize)]),
        (psi_label(), unit_label(), seq![(psi_label(), 1usize)]),
        (unit_label(), sigma_label(), seq![(sigma_label(), 1usize)]),
        (sigma_label(), unit_label(), seq![(sigma_label(), 1usize)]),
        (psi_label(), psi_label(), seq![(unit_label(), 1usize)]),
        (sigma_label(), psi_label(), seq![(sigma_label(), 1usize)]),
        (psi_label(), sigma_label(), seq![(sigma_label(), 1usize)]),
        (sigma_label(), sigma_label(), seq![(unit_label(), 1usize), (psi_label(), 1usize)]),
    ]
}

/// The fusion rules of the Fibonacci modular tensor category {1, τ}.
pub fn fibonacci_fusion_rules() -> (rules: Vec<FusionRule>)
    ensures
        rules_view(rules@) == fibonacci_table(),
{
    proof {
        reveal_strlit("1");
        reveal_strlit("\u{3c4}");
    }
    let one = "1".to_owned();
    let tau = "\u{3c4}".to_owned();
    assert(one@ == unit_label());
    assert(tau@ == tau_label());
    let mut tau_tau: Vec<(String, usize)> = Vec::new();
    tau_tau.push((one, 1));
    tau_tau.push((tau, 1));
    let mut rules: Vec<FusionRule> = Vec::new();
    rules.push(FusionRule::simple("1", "1", "1"));
    rules.push(FusionRule::simple("1", "\u{3c4}", "\u{3c4}"));
    rules.push(FusionRule::simple("\u{3c4}", "1", "\u{3c4}"));
    let last = FusionRule::multi("\u{3c4}", "\u{3c4}", tau_tau);
    assert(last@.2 =~= seq![(unit_label(), 1usize), (tau_label(), 1usize)]);
    rules.push(last);
    assert(rules_view(rules@) =~= fibonacci_table());
    rules
}

/// The fusion rules of the Ising modular tensor category {1, ψ, σ}.
pub fn ising_fusion_rules() -> (rules: Vec<FusionRule>)
    ensures
        rules_view(rules@) == ising_table(),
{
    proof {
        reveal_strlit("1");
        reveal_strlit("\u{3c8}");
        reveal_strlit("\u{3c3}");
    }
    assert("\u{3c3}"@ == sigma_label());
    let one = "1".to_owned();
    let psi = "\u{3c8}".to_owned();
    assert(one@ == unit_label());
    assert(psi@ == psi_label());
    let mut sigma_sigma: Vec<(String, usize)> = Vec::new();
    sigma_sigma.push((one, 1));
    sigma_sigma.push((psi, 1));
    let mut rules: Vec<FusionRule> = Vec::new();
    rules.push(FusionRule::simple("1", "1", "1"));
    rules.push(FusionRule::simple("1", "\u{3c8}", "\u{3c8}"));
    rules.push(FusionRule::simple("\u{3c8}", "1", "\u{3c8}"));
    rules.push(FusionRule::simple("1", "\u{3c3}", "\u{3c3}"));
    rules.push(FusionRule::simple("\u{3c3}", "1", "\u{3c3}"));
    rules.push(FusionRule::simple("\u{3c8}", "\u{3c8}", "1"));
    rules.push(FusionRule::simple("\u{3c3}", "\u{3c8}", "\u{3c3}"));
    rules.push(FusionRule::simple("\u{3c8}", "\u{3c3}", "\u{3c3}"));
    let last = FusionRule::multi("\u{3c3}", "\u{3c3}", sigma_sigma);
    assert(last@.2 =~= seq![(unit_label(), 1usize), (psi_label(), 1usize)]);
    rules.push(last);
    assert(rules_view(rules@) =~= ising_table());
    rules
}

/// The fusion coefficients of the Fibonacci category: N_{ab}^c is 1 exactly
/// when the vacuum fuses trivially (1 × x = x × 1 = x for x ∈ {1, τ}) or
/// a = b = τ and c ∈ {1, τ}; otherwise 0.
pub open spec fn fibonacci_coefficient(a: Seq<char>, b: Seq<char>, c: Seq<char>) -> nat {
    let one = unit_label();
    let tau = tau_label();
    if (a == one && b == c && (b == one || b == tau)) || (b == one && a == c && (a == one || a
        == tau)) || (a == tau && b == tau && (c == one || c == tau)) {
        1
    } else {
        0
    }
}

/// The fusion coefficients of the Ising category: N_{ab}^c is 1 exactly when
/// the vacuum fuses trivially (1 × x = x × 1 = x for x ∈ {1, ψ, σ}),
/// ψ × ψ = 1, σ × ψ = ψ × σ = σ, or σ × σ ∈ {1, ψ}; otherwise 0.
pub open spec fn ising_coefficient(a: Seq<char>, b: Seq<char>, c: Seq<char>) -> nat {
    let one = unit_label();
    let psi = psi_label();
    let sigma = sigma_label();
    let label = |x: Seq<char>| x == one || x == psi || x == sigma;
    if (a == one && b == c && label(b)) || (b == one && a == c && label(a)) || (a == psi && b
        == psi && c == one) || (a == sigma && b == psi && c == sigma) || (a == psi && b == sigma
        && c == sigma) || (a == sigma && b == sigma && (c == one || c == psi)) {
        1
    } else {
        0
    }
}

/// Reading the Fibonacci rules gives exactly the Fibonacci fusion coefficients,
/// and fusion is commutative: N_{ab}^c = N_{ba}^c.
pub proof fn law_fibonacci_fusion_coefficients(a: Seq<char>, b: Seq<char>, c: Seq<char>)
    ensures
        fusion_coefficient_of(fibonacci_table(), a, b, c) == fibonacci_coefficient(a, b, c),
        fusion_coefficient_of(fibonacci_table(), a, b, c) == fusion_coefficient_of(
            fibonacci_table(),
            b,
            a,
            c,
        ),
{
    reveal_with_fuel(fusion_coefficient_of, 5);
    reveal_with_fuel(outcome_multiplicity, 3);
    lemma_labels_distinct();
    assert(fusion_coefficient_of(fibonacci_table(), a, b, c) == fibonacci_coefficient(a, b, c));
    assert(fusion_coefficient_of(fibonacci_table(), b, a, c) == fibonacci_coefficient(b, a, c));
}

/// Reading the Ising rules gives exactly the Ising fusion coefficients, and
/// fusion is commutative: N_{ab}^c = N_{ba}^c.
pub proof fn law_ising_fusion_coefficients(a: Seq<char>, b: Seq<char>, c: Seq<char>)
    ensures
        fusion_coefficient_of(ising_table(), a, b, c) == ising_coefficient(a, b, c),
        fusion_coefficient_of(ising_table(), a, b, c) == fusion_coefficient_of(
            ising_table(),
            b,
            a,
            c,
        ),
{
    reveal_with_fuel(fusion_coefficient_of, 10);
    reveal_with_fuel(outcome_multiplicity, 3);
    lemma_labels_distinct();
    assert(fusion_coefficient_of(ising_table(), a, b, c) == ising_coefficient(a, b, c));
    assert(fusion_coefficient_of(ising_table(), b, a, c) == ising_coefficient(b, a, c));
}

/// The four labels are distinct.
pub proof fn lemma_labels_distinct()
    ensures
        unit_label() != tau_label(),
        unit_label() != psi_label(),
        unit_label() != sigma_label(),
        tau_label() != psi_label(),
        tau_label() != sigma_label(),
        psi_label() != sigma_label(),
{
    assert(unit_label()[0] != tau_label()[0]);
    assert(unit_label()[0] != psi_label()[0]);
    assert(unit_label()[0] != sigma_label()[0]);
    assert(tau_label()[0] != psi_label()[0]);
    assert(tau_label()[0] != sigma_label()[0]);
    assert(psi_label()[0] != sigma_label()[0]);
}

/// The label of a Fibonacci-model anyon type in the Fibonacci category.
pub open spec fn fibonacci_label_of(t: AnyonType) -> Seq<char> {
    if t == AnyonType::Vacuum {
        unit_label()
    } else {
        tau_label()
    }
}

/// Fusing anyon types in the Fibonacci model agrees with the Fibonacci
/// category: for the vacuum and τ, an outcome c is listed for a × b exactly
/// when N_{ab}^c = 1, and no outcome is listed twice.
pub proof fn law_fibonacci_anyons_match_category(a: AnyonType, b: AnyonType, c: AnyonType)
    requires
        a != AnyonType::Ising,
        b != AnyonType::Ising,
        c != AnyonType::Ising,
    ensures
        fibonacci_fusion(a, b).contains(c) <==> fusion_coefficient_of(
            fibonacci_table(),
            fibonacci_label_of(a),
            fibonacci_label_of(b),
            fibonacci_label_of(c),
        ) == 1,
        fibonacci_fusion(a, b).no_duplicates(),
{
    law_fibonacci_fusion_coefficients(
        fibonacci_label_of(a),
        fibonacci_label_of(b),
        fibonacci_label_of(c),
    );
    lemma_labels_distinct();
    let f = fibonacci_fusion(a, b);
    if f.contains(c) {
        // name the position at which c is listed
        let k = choose|k: int| 0 <= k < f.len() && f[k] == c;
        assert(f[k] == c);
    }
    let n = fusion_coefficient_of(
        fibonacci_table(),
        fibonacci_label_of(a),
        fibonacci_label_of(b),
        fibonacci_label_of(c),
    );
    if n == 1 {
        assert(f[0] == c || f[1] == c);
    }
}

/// An outcome list that lists `c` first after `pre` (where `c` does not occur)
/// gives the multiplicity m listed with it.
proof fn lemma_outcome_multiplicity_first(
    pre: Seq<(Seq<char>, usize)>,
    c: Seq<char>,
    m: usize,
    post: Seq<(Seq<char>, usize)>,
)
    requires
        forall|k: int| 0 <= k < pre.len() ==> (#[trigger] pre[k]).0 != c,
    ensures
        outcome_multiplicity(pre + seq![(c, m)] + post, c) == Some(m),
    decreases pre.len(),
{
    let all = pre + seq![(c, m)] + post;
    if pre.len() == 0 {
        assert(all[0] == (c, m));
    } else {
        assert(all[0] == pre[0]);
        assert(all.drop_first() =~= pre.drop_first() + seq![(c, m)] + post);
        assert forall|k: int| 0 <= k < pre.drop_first().len() implies (
        #[trigger] pre.drop_first()[k]).0 != c by {
            assert(pre.drop_first()[k] == pre[k + 1]);
        }
        lemma_outcome_multiplicity_first(pre.drop_first(), c, m, post);
    }
}

/// An outcome list in which no pair is labelled `c` lists no multiplicity for it.
proof fn lemma_outcome_multiplicity_absent(outs: Seq<(Seq<char>, usize)>, c: Seq<char>)
    requires
        forall|k: int| 0 <= k < outs.len() ==> (#[trigger] outs[k]).0 != c,
    ensures
        outcome_multiplicity(outs, c) is None,
    decreases outs.len(),
{
    if outs.len() > 0 {
        assert forall|k: int| 0 <= k < outs.drop_first().len() implies (
        #[trigger] outs.drop_first()[k]).0 != c by {
            assert(outs.drop_first()[k] == outs[k + 1]);
        }
        lemma_outcome_multiplicity_absent(outs.drop_first(), c);
    }
}

/// For any list of rules: when the first rule has labels exactly (a, b) in
/// this order and lists `c` with multiplicity m (no earlier outcome of it
/// being `c`), the coefficient N_{ab}^c is m. In particular a one-rule list
/// a × b → c gives N_{ab}^c = 1.
pub proof fn law_fusion_coefficient_first_rule(
    a: Seq<char>,
    b: Seq<char>,
    c: Seq<char>,
    m: usize,
    pre: Seq<(Seq<char>, usize)>,
    post: Seq<(Seq<char>, usize)>,
    rest: Seq<FusionRuleView>,
)
    requires
        forall|k: int| 0 <= k < pre.len() ==> (#[trigger] pre[k]).0 != c,
    ensures
        fusion_coefficient_of(seq![(a, b, pre + seq![(c, m)] + post)] + rest, a, b, c) == m,
        fusion_coefficient_of(seq![(a, b, seq![(c, 1usize)])], a, b, c) == 1,
{
    lemma_outcome_multiplicity_first(pre, c, m, post);
    let rules = seq![(a, b, pre + seq![(c, m)] + post)] + rest;
    assert(rules[0] == (a, b, pre + seq![(c, m)] + post));
    let empty = Seq::<(Seq<char>, usize)>::empty();
    lemma_outcome_multiplicity_first(empty, c, 1usize, empty);
    assert(empty + seq![(c, 1usize)] + empty =~= seq![(c, 1usize)]);
}

/// A rule that is not for (a, b) in this order, or that does not list `c`,
/// is skipped: N_{ab}^c is read from the rules after it. No rules at all give 0.
pub proof fn law_fusion_coefficient_skip_rule(
    r: FusionRuleView,
    rest: Seq<FusionRuleView>,
    a: Seq<char>,
    b: Seq<char>,
    c: Seq<char>,
)
    requires
        r.0 != a || r.1 != b || forall|k: int| 0 <= k < r.2.len() ==> (#[trigger] r.2[k]).0 != c,
    ensures
        fusion_coefficient_of(seq![r] + rest, a, b, c) == fusion_coefficient_of(rest, a, b, c),
        fusion_coefficient_of(Seq::<FusionRuleView>::empty(), a, b, c) == 0,
{
    let rules = seq![r] + rest;
    assert(rules[0] == r);
    assert(rules.drop_first() =~= rest);
    if r.0 == a && r.1 == b {
        lemma_outcome_multiplicity_absent(r.2, c);
    }
}

/// The plain view of a rule holds its labels a and b and, position by
/// position, each outcome's label and multiplicity; the views of a list of
/// rules are the rules' views in the same order.
pub proof fn law_fusion_rule_view(r: FusionRule, rules: Seq<FusionRule>)
    ensures
        r@.0 == r.a@,
        r@.1 == r.b@,
        r@.2.len() == r.outcomes@.len(),
        forall|k: int|
            0 <= k < r.outcomes@.len() ==> #[trigger] r@.2[k] == (
            r.outcomes@[k].0@,
            r.outcomes@[k].1,
        ),
        rules_view(rules).len() == rules.len(),
        forall|i: int| 0 <= i < rules.len() ==> #[trigger] rules_view(rules)[i] == rules[i]@,
{
}

} // verus!
