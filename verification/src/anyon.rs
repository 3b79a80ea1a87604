//! Anyon types and their fusion rules.
//!
//! Supports Fibonacci anyons (τ × τ = 1 + τ) and Ising anyons
//! (σ × σ = 1 + ψ, where the type `Ising` stands for both σ and ψ).
use vstd::prelude::*;

verus! {

/// The vacuum (trivial) anyon label.
pub const VACUUM: &'static str = "1";

/// Types of anyons supported.
#[derive(Debug, Clone, Copy, PartialEq, Eq, Hash, Structural)]
pub enum AnyonType {
    /// Trivial/vacuum anyon
    Vacuum,
    /// Fibonacci anyon: τ with fusion τ × τ = 1 + τ
    Fibonacci,
    /// Ising anyons: σ (non-abelian) and ψ (fermion)
    Ising,
}

/// A concrete anyon with a type and a label.
#[derive(Debug, Clone)]
pub struct Anyon {
    pub anyon_type: AnyonType,
    pub label: String,
}

impl Anyon {
    /// An anyon of the given type carrying the given label.
    pub fn new(anyon_type: AnyonType, label: &str) -> (a: Anyon)
        ensures
            a.anyon_type == anyon_type,
            a.label@ == label@,
    {
        Anyon { anyon_type, label: label.to_owned() }
    }

    /// Fibonacci anyon τ
    pub fn fib(label: &str) -> (a: Anyon)
        ensures
            a.anyon_type == AnyonType::Fibonacci,
            a.label@ == label@,
    {
        Self::new(AnyonType::Fibonacci, label)
    }

    /// Ising anyon σ
    pub fn ising(label: &str) -> (a: Anyon)
        ensures
            a.anyon_type == AnyonType::Ising,
            a.label@ == label@,
    {
        Self::new(AnyonType::Ising, label)
    }

    /// Vacuum anyon 1
    pub fn vacuum() -> (a: Anyon)
        ensures
            a.anyon_type == AnyonType::Vacuum,
            a.label@ == seq!['1'],
    {
        proof {
            reveal_strlit("1");
        }
        Self::new(AnyonType::Vacuum, "1")
    }
}

/// Result of fusing two anyons: the possible outcomes, in order.
#[derive(Debug, Clone)]
pub struct FusionResult {
    pub outcomes: Vec<AnyonType>,
}

impl View for FusionResult {
    type V = Seq<AnyonType>;

    open spec fn view(&self) -> Seq<AnyonType> {
        self.outcomes@
    }
}

/// The outcomes of fusing `a` and `b` in the Fibonacci model:
/// the vacuum is the unit, τ × τ = 1 + τ, and any other pair has no outcome.
pub open spec fn fibonacci_fusion(a: AnyonType, b: AnyonType) -> Seq<AnyonType> {
    match (a, b) {
        (AnyonType::Vacuum, x) => seq![x],
        (x, AnyonType::Vacuum) => seq![x],
        (AnyonType::Fibonacci, AnyonType::Fibonacci) => seq![AnyonType::Vacuum, AnyonType::Fibonacci],
        _ => Seq::empty(),
    }
}

/// The outcomes of fusing `a` and `b` in the Ising model: the vacuum is the
/// unit, Ising × Ising = 1 + Ising (σ × σ = 1 + ψ), any other pair has no outcome.
pub open spec fn ising_fusion(a: AnyonType, b: AnyonType) -> Seq<AnyonType> {
    match (a, b) {
        (AnyonType::Vacuum, x) => seq![x],
        (x, AnyonType::Vacuum) => seq![x],
        (AnyonType::Ising, AnyonType::Ising) => seq![AnyonType::Vacuum, AnyonType::Ising],
        _ => Seq::empty(),
    }
}

/// Compute the fusion of two Fibonacci anyons: τ × τ = 1 + τ
pub fn fuse_fibonacci(a: &AnyonType, b: &AnyonType) -> (r: FusionResult)
    ensures
        r@ == fibonacci_fusion(*a, *b),
{
    match (a, b) {
        (AnyonType::Vacuum, x) | (x, AnyonType::Vacuum) => FusionResult { outcomes: vec![*x] },
        (AnyonType::Fibonacci, AnyonType::Fibonacci) => {
            FusionResult { outcomes: vec![AnyonType::Vacuum, AnyonType::Fibonacci] }
        },
        _ => FusionResult { outcomes: Vec::new() },
    }
}

/// Compute the fusion of two Ising anyons: σ × σ = 1 + ψ, with ψ of type
/// `Ising`; pairs beyond the vacuum and two Ising anyons have no outcome.
pub fn fuse_ising(a: &AnyonType, b: &AnyonType) -> (r: FusionResult)
    ensures
        r@ == ising_fusion(*a, *b),
{
    match (a, b) {
        (AnyonType::Vacuum, x) | (x, AnyonType::Vacuum) => FusionResult { outcomes: vec![*x] },
        (AnyonType::Ising, AnyonType::Ising) => {
            FusionResult { outcomes: vec![AnyonType::Vacuum, AnyonType::Ising] }
        },
        _ => FusionResult { outcomes: Vec::new() },
    }
}

/// Fusion in the Fibonacci model is commutative: a × b and b × a have the same outcomes.
pub proof fn law_fibonacci_fusion_commutative(a: AnyonType, b: AnyonType)
    ensures
        fibonacci_fusion(a, b) == fibonacci_fusion(b, a),
{
}

/// Fusion in the Ising model is commutative: a × b and b × a have the same outcomes.
pub proof fn law_ising_fusion_commutative(a: AnyonType, b: AnyonType)
    ensures
        ising_fusion(a, b) == ising_fusion(b, a),
{
}

/// The vacuum is a two-sided unit of fusion in both models: 1 × x = x × 1 = x.
pub proof fn law_vacuum_is_fusion_unit(x: AnyonType)
    ensures
        fibonacci_fusion(AnyonType::Vacuum, x) == seq![x],
        fibonacci_fusion(x, AnyonType::Vacuum) == seq![x],
        ising_fusion(AnyonType::Vacuum, x) == seq![x],
        ising_fusion(x, AnyonType::Vacuum) == seq![x],
{
}

/// Every outcome of a fusion in the Fibonacci model is again a label of that
/// model (the vacuum or τ) when both inputs are.
pub proof fn law_fibonacci_fusion_closed(a: AnyonType, b: AnyonType)
    requires
        a != AnyonType::Ising,
        b != AnyonType::Ising,
    ensures
        forall|i: int|
            0 <= i < fibonacci_fusion(a, b).len() ==> #[trigger] fibonacci_fusion(a, b)[i]
                != AnyonType::Ising,
{
}

/// Every outcome of a fusion in the Ising model is again a label of that
/// model (the vacuum or an Ising anyon) when both inputs are.
pub proof fn law_ising_fusion_closed(a: AnyonType, b: AnyonType)
    requires
        a != AnyonType::Fibonacci,
        b != AnyonType::Fibonacci,
    ensures
        forall|i: int|
            0 <= i < ising_fusion(a, b).len() ==> #[trigger] ising_fusion(a, b)[i]
                != AnyonType::Fibonacci,
{
}

/// The outcomes of a fusion result, in the order they are listed.
pub proof fn law_fusion_result_view(r: FusionResult)
    ensures
        r@.len() == r.outcomes@.len(),
        forall|i: int| 0 <= i < r.outcomes@.len() ==> #[trigger] r@[i] == r.outcomes@[i],
{
}

} // verus!
