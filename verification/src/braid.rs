//! Braid group words.
//!
//! A braid word in B_n is a product of generators σ_i (crossing strand i over
//! strand i+1) and their inverses σ_i⁻¹. The group relations are
//! - σ_i σ_j = σ_j σ_i for |i-j| ≥ 2 (far commutativity)
//! - σ_i σ_{i+1} σ_i = σ_{i+1} σ_i σ_{i+1} (Yang-Baxter / braid relation)
//!
//! The exponent sum and the permutation of strands are invariants of a braid:
//! both are unchanged by these relations and by cancelling σ_i σ_i⁻¹.
use vstd::prelude::*;

verus! {

/// A single braid generator σ_i (positive) or σ_i^{-1} (negative).
#[derive(Debug, Clone, Copy, PartialEq, Eq, Structural)]
pub struct BraidGenerator {
    pub index: usize,
    pub positive: bool,
}

impl BraidGenerator {
    /// The generator with the same index and the opposite sign.
    pub open spec fn inverted(self) -> BraidGenerator {
        BraidGenerator { index: self.index, positive: !self.positive }
    }

    /// The contribution of this generator to the exponent sum: +1 or -1.
    pub open spec fn sign(self) -> int {
        if self.positive {
            1
        } else {
            -1
        }
    }

    /// σ_index
    pub fn sigma(index: usize) -> (g: Self)
        ensures
            g == (BraidGenerator { index, positive: true }),
    {
        Self { index, positive: true }
    }

    /// σ_index⁻¹
    pub fn sigma_inv(index: usize) -> (g: Self)
        ensures
            g == (BraidGenerator { index, positive: false }),
    {
        Self { index, positive: false }
    }

    /// The inverse generator: same index, opposite sign.
    pub fn inverse(&self) -> (g: Self)
        ensures
            g == self.inverted(),
    {
        Self { index: self.index, positive: !self.positive }
    }

    /// The text of the generator: `σ{index}`, followed by `⁻¹` when negative.
    pub fn to_string(&self) -> (s: String)
        ensures
            s@ == generator_text(*self),
    {
        let mut s = String::new();
        proof {
            reveal_strlit("\u{3c3}");
            reveal_strlit("\u{207b}\u{b9}");
        }
        s.append("\u{3c3}");
        append_decimal(&mut s, self.index);
        if !self.positive {
            s.append("\u{207b}\u{b9}");
        }
        assert(s@ =~= generator_text(*self));
        s
    }
}

/// The inverse of a word: the generators in reverse order, each inverted.
pub open spec fn word_inverse(gens: Seq<BraidGenerator>) -> Seq<BraidGenerator> {
    Seq::new(gens.len(), |i: int| gens[gens.len() - 1 - i].inverted())
}

/// The exponent sum of a word: the number of positive generators minus the
/// number of negative ones.
pub open spec fn exponent_sum_of(gens: Seq<BraidGenerator>) -> int
    decreases gens.len(),
{
    if gens.len() == 0 {
        0
    } else {
        exponent_sum_of(gens.drop_last()) + gens.last().sign()
    }
}

/// Every generator of the word acts on strands that exist among `n`:
/// σ_i needs strands i and i+1.
pub open spec fn indices_below(gens: Seq<BraidGenerator>, n: nat) -> bool {
    forall|i: int| 0 <= i < gens.len() ==> #[trigger] gens[i].index + 1 < n
}

/// Exchange the entries at positions i and i+1.
pub open spec fn swap_adjacent(p: Seq<usize>, i: int) -> Seq<usize> {
    p.update(i, p[i + 1]).update(i + 1, p[i])
}

/// Apply the transpositions of the generators of a word, first to last, to `p`.
pub open spec fn apply_swaps(p: Seq<usize>, gens: Seq<BraidGenerator>) -> Seq<usize>
    decreases gens.len(),
{
    if gens.len() == 0 {
        p
    } else {
        swap_adjacent(apply_swaps(p, gens.drop_last()), gens.last().index as int)
    }
}

/// Applying transpositions keeps the length of the sequence.
pub proof fn lemma_apply_swaps_len(p: Seq<usize>, gens: Seq<BraidGenerator>)
    requires
        indices_below(gens, p.len()),
    ensures
        apply_swaps(p, gens).len() == p.len(),
    decreases gens.len(),
{
    if gens.len() > 0 {
        lemma_apply_swaps_len(p, gens.drop_last());
    }
}

/// The identity permutation [0, 1, ..., n-1].
pub open spec fn identity_permutation(n: nat) -> Seq<usize> {
    Seq::new(n, |i: int| i as usize)
}

/// `p` lists each of 0, 1, ..., n-1 exactly once.
pub open spec fn is_permutation(p: Seq<usize>, n: nat) -> bool {
    &&& p.len() == n
    &&& forall|i: int| 0 <= i < n ==> #[trigger] p[i] < n
    &&& forall|i: int, j: int| 0 <= i < n && 0 <= j < n && i != j ==> p[i] != p[j]
}

/// A braid word: product of braid generators in B_n.
#[derive(Debug, Clone)]
pub struct BraidWord {
    pub n: usize,
    pub generators: Vec<BraidGenerator>,
}

impl BraidWord {
    /// All generators of the word act on strands of B_n.
    pub open spec fn valid(self) -> bool {
        indices_below(self.generators@, self.n as nat)
    }

    /// The permutation of the n strands induced by the word.
    pub open spec fn permutation(self) -> Seq<usize> {
        apply_swaps(identity_permutation(self.n as nat), self.generators@)
    }

    /// The empty word in B_n.
    pub fn identity(n: usize) -> (w: Self)
        ensures
            w.n == n,
            w.generators@ == Seq::<BraidGenerator>::empty(),
    {
        Self { n, generators: Vec::new() }
    }

    /// Append σ_index to the word; returns the word for chaining.
    pub fn sigma(&mut self, index: usize) -> (r: &mut Self)
        ensures
            r.n == old(self).n,
            r.generators@ == old(self).generators@.push(BraidGenerator { index, positive: true }),
            *final(self) == *final(r),
    {
        self.generators.push(BraidGenerator::sigma(index));
        self
    }

    /// Append σ_index⁻¹ to the word; returns the word for chaining.
    pub fn sigma_inv(&mut self, index: usize) -> (r: &mut Self)
        ensures
            r.n == old(self).n,
            r.generators@ == old(self).generators@.push(BraidGenerator { index, positive: false }),
            *final(self) == *final(r),
    {
        self.generators.push(BraidGenerator::sigma_inv(index));
        self
    }

    /// The inverse word: generators reversed, each inverted.
    pub fn inverse(&self) -> (w: Self)
        ensures
            w.n == self.n,
            w.generators@ == word_inverse(self.generators@),
    {
        let len = self.generators.len();
        let mut generators: Vec<BraidGenerator> = Vec::with_capacity(len);
        let mut k: usize = 0;
        while k < len
            invariant
                k <= len,
                len == self.generators@.len(),
                generators@ =~= Seq::new(
                    k as nat,
                    |i: int| self.generators@[len - 1 - i].inverted(),
                ),
            decreases len - k,
        {
            let g = self.generators[len - 1 - k].inverse();
            generators.push(g);
            k = k + 1;
        }
        Self { n: self.n, generators }
    }

    /// Whether every generator σ_i has i < n - 1. On no strands (n = 0),
    /// where n - 1 is undefined, only the empty word may be asked.
    pub fn is_valid(&self) -> (b: bool)
        requires
            self.n > 0 || self.generators@.len() == 0,
        ensures
            b == self.valid(),
    {
        let len = self.generators.len();
        let mut k: usize = 0;
        while k < len
            invariant
                k <= len,
                len == self.generators@.len(),
                self.n > 0 || len == 0,
                forall|i: int| 0 <= i < k ==> #[trigger] self.generators@[i].index + 1 < self.n,
            decreases len - k,
        {
            if !(self.generators[k].index < self.n - 1) {
                return false;
            }
            k = k + 1;
        }
        true
    }

    /// The word `self` followed by `other`; both are words in the same B_n.
    pub fn compose(&self, other: &BraidWord) -> (w: BraidWord)
        requires
            self.n == other.n,
        ensures
            w.n == self.n,
            w.generators@ == self.generators@ + other.generators@,
    {
        let mut generators: Vec<BraidGenerator> = Vec::new();
        let mut k: usize = 0;
        while k < self.generators.len()
            invariant
                k <= self.generators@.len(),
                generators@ =~= self.generators@.take(k as int),
            decreases self.generators@.len() - k,
        {
            generators.push(self.generators[k]);
            k = k + 1;
        }
        let mut k: usize = 0;
        while k < other.generators.len()
            invariant
                k <= other.generators@.len(),
                generators@ =~= self.generators@ + other.generators@.take(k as int),
            decreases other.generators@.len() - k,
        {
            generators.push(other.generators[k]);
            k = k + 1;
        }
        BraidWord { n: self.n, generators }
    }

    /// Number of positive generators minus number of negative generators.
    pub fn exponent_sum(&self) -> (e: i64)
        requires
            self.generators@.len() <= i64::MAX,
        ensures
            e == exponent_sum_of(self.generators@),
    {
        let len = self.generators.len();
        let mut sum: i64 = 0;
        let mut k: usize = 0;
        while k < len
            invariant
                k <= len,
                len == self.generators@.len(),
                len <= i64::MAX,
                sum == exponent_sum_of(self.generators@.take(k as int)),
                -(k as int) <= sum <= k,
            decreases len - k,
        {
            proof {
                assert(self.generators@.take(k + 1).drop_last() =~= self.generators@.take(k as int));
            }
            if self.generators[k].positive {
                sum = sum + 1;
            } else {
                sum = sum - 1;
            }
            k = k + 1;
        }
        proof {
            assert(self.generators@.take(len as int) =~= self.generators@);
        }
        sum
    }

    /// The permutation of strands induced by the word: starting from
    /// [0, 1, ..., n-1], each σ_i or σ_i⁻¹ exchanges positions i and i+1.
    pub fn to_permutation(&self) -> (p: Vec<usize>)
        requires
            self.valid(),
        ensures
            p@ == self.permutation(),
    {
        let n = self.n;
        let mut perm: Vec<usize> = Vec::new();
        let mut k: usize = 0;
        while k < n
            invariant
                k <= n,
                perm@ =~= identity_permutation(k as nat),
            decreases n - k,
        {
            perm.push(k);
            k = k + 1;
        }
        let len = self.generators.len();
        let mut k: usize = 0;
        while k < len
            invariant
                k <= len,
                len == self.generators@.len(),
                n == self.n,
                self.valid(),
                perm@ == apply_swaps(identity_permutation(n as nat), self.generators@.take(k as int)),
                perm@.len() == n,
            decreases len - k,
        {
            proof {
                assert(self.generators@.take(k + 1).drop_last() =~= self.generators@.take(k as int));
            }
            let i = self.generators[k].index;
            assert(self.generators@[k as int].index + 1 < n);
            let a = perm[i];
            let b = perm[i + 1];
            perm.set(i, b);
            perm.set(i + 1, a);
            k = k + 1;
        }
        proof {
            assert(self.generators@.take(len as int) =~= self.generators@);
        }
        perm
    }

    /// Whether the word is trivially the identity by its invariants:
    /// exponent sum zero and the identity permutation.
    pub fn is_identity_trivial(&self) -> (b: bool)
        requires
            self.generators@.len() <= i64::MAX,
            exponent_sum_of(self.generators@) != 0 || self.valid(),
        ensures
            b == (exponent_sum_of(self.generators@) == 0 && self.permutation()
                == identity_permutation(self.n as nat)),
    {
        if self.exponent_sum() != 0 {
            return false;
        }
        let perm = self.to_permutation();
        proof {
            lemma_apply_swaps_len(identity_permutation(self.n as nat), self.generators@);
        }
        let mut k: usize = 0;
        while k < perm.len()
            invariant
                k <= perm@.len(),
                perm@.len() == self.n,
                perm@ == self.permutation(),
                forall|i: int| 0 <= i < k ==> #[trigger] perm@[i] == i,
            decreases perm@.len() - k,
        {
            if perm[k] != k {
                assert(perm@[k as int] != identity_permutation(self.n as nat)[k as int]);
                return false;
            }
            k = k + 1;
        }
        assert(perm@ =~= identity_permutation(self.n as nat));
        true
    }
}



/// A braid: a word in B_n whose generators act on strands of B_n.
#[derive(Debug, Clone)]
pub struct Braid {
    pub word: BraidWord,
}

impl Braid {
    /// The braid of a word; every generator σ_i of the word needs i < n - 1.
    pub fn new(word: BraidWord) -> (b: Braid)
        requires
            word.valid(),
        ensures
            b.word == word,
    {
        Self { word }
    }

    /// The trivial braid on n strands.
    pub fn identity(n: usize) -> (b: Braid)
        ensures
            b.word.n == n,
            b.word.generators@ == Seq::<BraidGenerator>::empty(),
    {
        Self { word: BraidWord::identity(n) }
    }

    /// The text of the braid: `B{n}(` then the generators separated by
    /// single spaces, then `)`; e.g. `B3(σ0 σ1⁻¹)`.
    pub fn to_string(&self) -> (s: String)
        ensures
            s@ == braid_text(self.word),
    {
        let mut s = String::new();
        proof {
            reveal_strlit("B");
            reveal_strlit("(");
            reveal_strlit(")");
            reveal_strlit(" ");
        }
        s.append("B");
        append_decimal(&mut s, self.word.n);
        s.append("(");
        let ghost head = s@;
        let gens = &self.word.generators;
        let mut k: usize = 0;
        while k < gens.len()
            invariant
                k <= gens@.len(),
                s@ == head + word_text(gens@.take(k as int)),
            decreases gens@.len() - k,
        {
            proof {
                reveal_strlit(" ");
                assert(gens@.take(k + 1).drop_last() =~= gens@.take(k as int));
                assert(gens@.take(k + 1).last() == gens@[k as int]);
                if k == 0 {
                    assert(gens@.take(1) =~= seq![gens@[0]]);
                }
            }
            if k > 0 {
                s.append(" ");
            }
            let g = gens[k].to_string();
            s.append(g.as_str());
            proof {
                assert(s@ =~= head + word_text(gens@.take(k + 1)));
            }
            k = k + 1;
        }
        proof {
            assert(gens@.take(gens@.len() as int) =~= gens@);
        }
        s.append(")");
        assert(s@ =~= braid_text(self.word));
        s
    }
}

/// The character of a decimal digit.
pub open spec fn digit_char(d: nat) -> char {
    if d == 0 {
        '0'
    } else if d == 1 {
        '1'
    } else if d == 2 {
        '2'
    } else if d == 3 {
        '3'
    } else if d == 4 {
        '4'
    } else if d == 5 {
        '5'
    } else if d == 6 {
        '6'
    } else if d == 7 {
        '7'
    } else if d == 8 {
        '8'
    } else {
        '9'
    }
}

/// The decimal digits of n, most significant first, without leading zeros.
pub open spec fn decimal(n: nat) -> Seq<char>
    decreases n,
{
    if n < 10 {
        seq![digit_char(n)]
    } else {
        decimal(n / 10).push(digit_char(n % 10))
    }
}

/// The text of a generator: `σ{i}` for σ_i and `σ{i}⁻¹` for σ_i⁻¹.
pub open spec fn generator_text(g: BraidGenerator) -> Seq<char> {
    seq!['\u{3c3}'] + decimal(g.index as nat) + if g.positive {
        Seq::<char>::empty()
    } else {
        seq!['\u{207b}', '\u{b9}']
    }
}

/// The texts of the generators of a word, separated by single spaces.
pub open spec fn word_text(gens: Seq<BraidGenerator>) -> Seq<char>
    decreases gens.len(),
{
    if gens.len() == 0 {
        Seq::empty()
    } else if gens.len() == 1 {
        generator_text(gens[0])
    } else {
        word_text(gens.drop_last()) + seq![' '] + generator_text(gens.last())
    }
}

/// The text of a braid: `B{n}(`, the word's text, `)`.
pub open spec fn braid_text(w: BraidWord) -> Seq<char> {
    seq!['B'] + decimal(w.n as nat) + seq!['('] + word_text(w.generators@) + seq![')']
}

/// The one-character string of a decimal digit.
fn digit_str(d: usize) -> (s: &'static str)
    requires
        d < 10,
    ensures
        s@ == seq![digit_char(d as nat)],
{
    proof {
        reveal_strlit("0");
        reveal_strlit("1");
        reveal_strlit("2");
        reveal_strlit("3");
        reveal_strlit("4");
        reveal_strlit("5");
        reveal_strlit("6");
        reveal_strlit("7");
        reveal_strlit("8");
        reveal_strlit("9");
    }
    if d == 0 {
        "0"
    } else if d == 1 {
        "1"
    } else if d == 2 {
        "2"
    } else if d == 3 {
        "3"
    } else if d == 4 {
        "4"
    } else if d == 5 {
        "5"
    } else if d == 6 {
        "6"
    } else if d == 7 {
        "7"
    } else if d == 8 {
        "8"
    } else {
        "9"
    }
}

/// Append the decimal digits of n to s.
fn append_decimal(s: &mut String, n: usize)
    ensures
        final(s)@ == old(s)@ + decimal(n as nat),
    decreases n,
{
    if n >= 10 {
        append_decimal(s, n / 10);
    }
    s.append(digit_str(n % 10));
}

// ----------------------------------------------------------------------------
// Lemmas about words, exponent sums and strand permutations
// ----------------------------------------------------------------------------

/// Inverting a generator twice gives it back.
pub proof fn lemma_generator_inverse_involutive(g: BraidGenerator)
    ensures
        g.inverted().inverted() == g,
{
}

/// Inverting a word twice gives it back.
pub proof fn lemma_word_inverse_involutive(gens: Seq<BraidGenerator>)
    ensures
        word_inverse(word_inverse(gens)) == gens,
{
    assert(word_inverse(word_inverse(gens)) =~= gens);
}

/// The exponent sum is additive over concatenation of words.
pub proof fn lemma_exponent_sum_append(s: Seq<BraidGenerator>, t: Seq<BraidGenerator>)
    ensures
        exponent_sum_of(s + t) == exponent_sum_of(s) + exponent_sum_of(t),
    decreases t.len(),
{
    if t.len() == 0 {
        assert(s + t =~= s);
    } else {
        assert((s + t).drop_last() =~= s + t.drop_last());
        lemma_exponent_sum_append(s, t.drop_last());
    }
}

/// The exponent sum of the inverse word is the negated exponent sum.
pub proof fn lemma_exponent_sum_inverse(gens: Seq<BraidGenerator>)
    ensures
        exponent_sum_of(word_inverse(gens)) == -exponent_sum_of(gens),
    decreases gens.len(),
{
    if gens.len() > 0 {
        let front = gens.drop_last();
        lemma_exponent_sum_inverse(front);
        let g = gens.last();
        assert(word_inverse(gens) =~= seq![g.inverted()] + word_inverse(front));
        lemma_exponent_sum_append(seq![g.inverted()], word_inverse(front));
        lemma_exponent_sum_short(g.inverted(), g, g);
    }
}

/// Applying the transpositions of a concatenation is applying those of the
/// first word, then those of the second.
pub proof fn lemma_apply_swaps_append(
    p: Seq<usize>,
    s: Seq<BraidGenerator>,
    t: Seq<BraidGenerator>,
)
    ensures
        apply_swaps(p, s + t) == apply_swaps(apply_swaps(p, s), t),
    decreases t.len(),
{
    if t.len() == 0 {
        assert(s + t =~= s);
    } else {
        assert((s + t).drop_last() =~= s + t.drop_last());
        lemma_apply_swaps_append(p, s, t.drop_last());
    }
}

/// Applying the transposition of a single generator.
pub proof fn lemma_apply_swaps_single(p: Seq<usize>, g: BraidGenerator)
    ensures
        apply_swaps(p, seq![g]) == swap_adjacent(p, g.index as int),
{
    assert(seq![g].drop_last() =~= Seq::<BraidGenerator>::empty());
    assert(apply_swaps(p, Seq::<BraidGenerator>::empty()) == p);
}

/// Exchanging the same adjacent pair twice changes nothing.
pub proof fn lemma_swap_adjacent_involutive(p: Seq<usize>, i: int)
    requires
        0 <= i,
        i + 1 < p.len(),
    ensures
        swap_adjacent(swap_adjacent(p, i), i) == p,
{
    assert(swap_adjacent(swap_adjacent(p, i), i) =~= p);
}

/// A word followed by its inverse moves no strand.
pub proof fn lemma_swaps_cancel(p: Seq<usize>, gens: Seq<BraidGenerator>)
    requires
        indices_below(gens, p.len()),
    ensures
        apply_swaps(apply_swaps(p, gens), word_inverse(gens)) == p,
    decreases gens.len(),
{
    if gens.len() > 0 {
        let g = gens[0];
        let rest = gens.drop_first();
        assert(gens =~= seq![g] + rest);
        assert(word_inverse(gens) =~= word_inverse(rest) + seq![g.inverted()]);
        assert(g.index + 1 < p.len());
        let q = swap_adjacent(p, g.index as int);
        lemma_apply_swaps_append(p, seq![g], rest);
        lemma_apply_swaps_single(p, g);
        assert(indices_below(rest, q.len())) by {
            assert forall|i: int| 0 <= i < rest.len() implies #[trigger] rest[i].index + 1 < q.len() by {
                assert(rest[i] == gens[i + 1]);
            }
        }
        lemma_swaps_cancel(q, rest);
        lemma_apply_swaps_append(apply_swaps(q, rest), word_inverse(rest), seq![g.inverted()]);
        lemma_apply_swaps_single(q, g.inverted());
        lemma_swap_adjacent_involutive(p, g.index as int);
    }
}

/// The identity permutation lists each strand exactly once.
pub proof fn lemma_identity_is_permutation(n: nat)
    requires
        n <= usize::MAX,
    ensures
        is_permutation(identity_permutation(n), n),
{
    let p = identity_permutation(n);
    assert forall|i: int, j: int| 0 <= i < n && 0 <= j < n && i != j implies p[i] != p[j] by {
        assert(p[i] == i as usize);
        assert(p[j] == j as usize);
    }
}

/// Transpositions of existing strands keep a permutation a permutation.
pub proof fn lemma_apply_swaps_permutation(p: Seq<usize>, gens: Seq<BraidGenerator>, n: nat)
    requires
        is_permutation(p, n),
        indices_below(gens, n),
    ensures
        is_permutation(apply_swaps(p, gens), n),
    decreases gens.len(),
{
    if gens.len() > 0 {
        let front = gens.drop_last();
        assert(indices_below(front, n)) by {
            assert forall|i: int| 0 <= i < front.len() implies #[trigger] front[i].index + 1 < n by {
                assert(front[i] == gens[i]);
            }
        }
        lemma_apply_swaps_permutation(p, front, n);
        let q = apply_swaps(p, front);
        let k = gens.last().index as int;
        assert(gens[gens.len() - 1].index + 1 < n);
        let r = swap_adjacent(q, k);
        assert forall|i: int, j: int| 0 <= i < n && 0 <= j < n && i != j implies r[i] != r[j] by {
            let si = if i == k { k + 1 } else if i == k + 1 { k } else { i };
            let sj = if j == k { k + 1 } else if j == k + 1 { k } else { j };
            assert(r[i] == q[si]);
            assert(r[j] == q[sj]);
        }
        assert forall|i: int| 0 <= i < n implies #[trigger] r[i] < n by {
            let si = if i == k { k + 1 } else if i == k + 1 { k } else { i };
            assert(r[i] == q[si]);
        }
    }
}

/// Transpositions applied in the middle of a word: with `mid` and `mid2`
/// acting alike on any sequence of length n, a word u·mid·v and u·mid2·v
/// act alike.
proof fn lemma_apply_swaps_middle(
    p: Seq<usize>,
    u: Seq<BraidGenerator>,
    mid: Seq<BraidGenerator>,
    mid2: Seq<BraidGenerator>,
    v: Seq<BraidGenerator>,
)
    requires
        indices_below(u, p.len()),
        apply_swaps(apply_swaps(p, u), mid) == apply_swaps(apply_swaps(p, u), mid2),
    ensures
        apply_swaps(p, u + mid + v) == apply_swaps(p, u + mid2 + v),
{
    lemma_apply_swaps_append(p, u + mid, v);
    lemma_apply_swaps_append(p, u + mid2, v);
    lemma_apply_swaps_append(p, u, mid);
    lemma_apply_swaps_append(p, u, mid2);
}

/// The exponent sums of u·mid·v and u·mid2·v agree when those of mid and mid2 do.
proof fn lemma_exponent_sum_middle(
    u: Seq<BraidGenerator>,
    mid: Seq<BraidGenerator>,
    mid2: Seq<BraidGenerator>,
    v: Seq<BraidGenerator>,
)
    requires
        exponent_sum_of(mid) == exponent_sum_of(mid2),
    ensures
        exponent_sum_of(u + mid + v) == exponent_sum_of(u + mid2 + v),
{
    lemma_exponent_sum_append(u + mid, v);
    lemma_exponent_sum_append(u + mid2, v);
    lemma_exponent_sum_append(u, mid);
    lemma_exponent_sum_append(u, mid2);
}

/// The transpositions of a two-letter word.
proof fn lemma_apply_swaps_pair(p: Seq<usize>, a: BraidGenerator, b: BraidGenerator)
    ensures
        apply_swaps(p, seq![a, b]) == swap_adjacent(swap_adjacent(p, a.index as int), b.index as int),
{
    assert(seq![a, b].drop_last() =~= seq![a]);
    lemma_apply_swaps_single(p, a);
}

/// The transpositions of a three-letter word.
proof fn lemma_apply_swaps_triple(p: Seq<usize>, a: BraidGenerator, b: BraidGenerator, c: BraidGenerator)
    ensures
        apply_swaps(p, seq![a, b, c]) == swap_adjacent(
            swap_adjacent(swap_adjacent(p, a.index as int), b.index as int),
            c.index as int,
        ),
{
    assert(seq![a, b, c].drop_last() =~= seq![a, b]);
    lemma_apply_swaps_pair(p, a, b);
}

/// The exponent sum of a short word.
proof fn lemma_exponent_sum_short(a: BraidGenerator, b: BraidGenerator, c: BraidGenerator)
    ensures
        exponent_sum_of(seq![a]) == a.sign(),
        exponent_sum_of(seq![a, b]) == a.sign() + b.sign(),
        exponent_sum_of(seq![a, b, c]) == a.sign() + b.sign() + c.sign(),
{
    assert(seq![a].drop_last() =~= Seq::<BraidGenerator>::empty());
    assert(exponent_sum_of(Seq::<BraidGenerator>::empty()) == 0);
    assert(exponent_sum_of(seq![a]) == a.sign());
    assert(seq![a, b].drop_last() =~= seq![a]);
    assert(exponent_sum_of(seq![a, b]) == a.sign() + b.sign());
    assert(seq![a, b, c].drop_last() =~= seq![a, b]);
}

// ----------------------------------------------------------------------------
// Laws: exponent sum and strand permutation are invariants of the braid
// ----------------------------------------------------------------------------

/// The strand permutation of a valid word in B_n lists each of the n strands
/// exactly once.
pub proof fn law_permutation_is_bijection(w: BraidWord)
    requires
        w.valid(),
    ensures
        is_permutation(w.permutation(), w.n as nat),
{
    lemma_identity_is_permutation(w.n as nat);
    lemma_apply_swaps_permutation(identity_permutation(w.n as nat), w.generators@, w.n as nat);
}

/// The inverse word of a valid word is valid, and inverting twice gives the word back.
pub proof fn law_inverse_involutive(w: BraidWord)
    ensures
        word_inverse(word_inverse(w.generators@)) == w.generators@,
        w.valid() ==> indices_below(word_inverse(w.generators@), w.n as nat),
{
    lemma_word_inverse_involutive(w.generators@);
    let inv = word_inverse(w.generators@);
    if w.valid() {
        assert forall|i: int| 0 <= i < inv.len() implies #[trigger] inv[i].index + 1 < w.n by {
            assert(inv[i].index == w.generators@[w.generators@.len() - 1 - i].index);
        }
    }
}

/// Composition of words adds exponent sums and composes strand permutations.
pub proof fn law_compose_homomorphism(w1: BraidWord, w2: BraidWord)
    requires
        w1.n == w2.n,
    ensures
        exponent_sum_of(w1.generators@ + w2.generators@) == exponent_sum_of(w1.generators@)
            + exponent_sum_of(w2.generators@),
        apply_swaps(identity_permutation(w1.n as nat), w1.generators@ + w2.generators@)
            == apply_swaps(w1.permutation(), w2.generators@),
{
    lemma_exponent_sum_append(w1.generators@, w2.generators@);
    lemma_apply_swaps_append(identity_permutation(w1.n as nat), w1.generators@, w2.generators@);
}

/// A valid word composed with its inverse is trivially the identity: its
/// exponent sum is zero and it moves no strand. The inverse word has the
/// negated exponent sum.
pub proof fn law_compose_with_inverse_is_trivial(w: BraidWord)
    requires
        w.valid(),
    ensures
        exponent_sum_of(word_inverse(w.generators@)) == -exponent_sum_of(w.generators@),
        exponent_sum_of(w.generators@ + word_inverse(w.generators@)) == 0,
        apply_swaps(identity_permutation(w.n as nat), w.generators@ + word_inverse(w.generators@))
            == identity_permutation(w.n as nat),
{
    let s = w.generators@;
    let id = identity_permutation(w.n as nat);
    lemma_exponent_sum_inverse(s);
    lemma_exponent_sum_append(s, word_inverse(s));
    lemma_apply_swaps_append(id, s, word_inverse(s));
    lemma_swaps_cancel(id, s);
}

/// Far commutativity holds in the invariants: for |i - j| ≥ 2 the words
/// u·σ_i^±·σ_j^±·v and u·σ_j^±·σ_i^±·v have the same exponent sum and the same
/// strand permutation.
pub proof fn law_far_commutativity(
    n: nat,
    u: Seq<BraidGenerator>,
    a: BraidGenerator,
    b: BraidGenerator,
    v: Seq<BraidGenerator>,
)
    requires
        indices_below(u, n),
        a.index + 1 < n,
        b.index + 1 < n,
        a.index + 2 <= b.index || b.index + 2 <= a.index,
    ensures
        exponent_sum_of(u + seq![a, b] + v) == exponent_sum_of(u + seq![b, a] + v),
        apply_swaps(identity_permutation(n), u + seq![a, b] + v) == apply_swaps(
            identity_permutation(n),
            u + seq![b, a] + v,
        ),
{
    let id = identity_permutation(n);
    lemma_exponent_sum_short(a, b, b);
    lemma_exponent_sum_short(b, a, a);
    lemma_exponent_sum_middle(u, seq![a, b], seq![b, a], v);
    let q = apply_swaps(id, u);
    lemma_apply_swaps_len(id, u);
    lemma_apply_swaps_pair(q, a, b);
    lemma_apply_swaps_pair(q, b, a);
    assert(swap_adjacent(swap_adjacent(q, a.index as int), b.index as int) =~= swap_adjacent(
        swap_adjacent(q, b.index as int),
        a.index as int,
    ));
    lemma_apply_swaps_middle(id, u, seq![a, b], seq![b, a], v);
}

/// The Yang-Baxter relation holds in the invariants: with x = σ_i and
/// y = σ_{i+1}, the words u·x·y·x·v and u·y·x·y·v have the same exponent sum
/// and the same strand permutation.
pub proof fn law_yang_baxter(
    n: nat,
    u: Seq<BraidGenerator>,
    x: BraidGenerator,
    y: BraidGenerator,
    v: Seq<BraidGenerator>,
)
    requires
        indices_below(u, n),
        x.positive,
        y.positive,
        y.index == x.index + 1,
        y.index + 1 < n,
    ensures
        exponent_sum_of(u + seq![x, y, x] + v) == exponent_sum_of(u + seq![y, x, y] + v),
        apply_swaps(identity_permutation(n), u + seq![x, y, x] + v) == apply_swaps(
            identity_permutation(n),
            u + seq![y, x, y] + v,
        ),
{
    let id = identity_permutation(n);
    lemma_exponent_sum_short(x, y, x);
    lemma_exponent_sum_short(y, x, y);
    lemma_exponent_sum_middle(u, seq![x, y, x], seq![y, x, y], v);
    let q = apply_swaps(id, u);
    lemma_apply_swaps_len(id, u);
    lemma_apply_swaps_triple(q, x, y, x);
    lemma_apply_swaps_triple(q, y, x, y);
    let ii = x.index as int;
    assert(swap_adjacent(swap_adjacent(swap_adjacent(q, ii), ii + 1), ii) =~= swap_adjacent(
        swap_adjacent(swap_adjacent(q, ii + 1), ii),
        ii + 1,
    ));
    lemma_apply_swaps_middle(id, u, seq![x, y, x], seq![y, x, y], v);
}

/// A generator next to its inverse cancels in the invariants: u·g·g⁻¹·v and
/// u·v have the same exponent sum and the same strand permutation.
pub proof fn law_cancellation(
    n: nat,
    u: Seq<BraidGenerator>,
    g: BraidGenerator,
    v: Seq<BraidGenerator>,
)
    requires
        indices_below(u, n),
        g.index + 1 < n,
    ensures
        exponent_sum_of(u + seq![g, g.inverted()] + v) == exponent_sum_of(u + v),
        apply_swaps(identity_permutation(n), u + seq![g, g.inverted()] + v) == apply_swaps(
            identity_permutation(n),
            u + v,
        ),
{
    let id = identity_permutation(n);
    let empty = Seq::<BraidGenerator>::empty();
    assert(u + empty + v =~= u + v);
    lemma_exponent_sum_short(g, g.inverted(), g);
    lemma_exponent_sum_middle(u, seq![g, g.inverted()], empty, v);
    let q = apply_swaps(id, u);
    lemma_apply_swaps_len(id, u);
    lemma_apply_swaps_pair(q, g, g.inverted());
    lemma_swap_adjacent_involutive(q, g.index as int);
    lemma_apply_swaps_middle(id, u, seq![g, g.inverted()], empty, v);
}

// ----------------------------------------------------------------------------
// Laws stating each operation in terms of its inputs
// ----------------------------------------------------------------------------

/// A word is valid exactly when every generator σ_i of it has i + 1 < n;
/// nothing else is asked of it.
pub proof fn law_valid_iff_indices_in_range(w: BraidWord)
    ensures
        w.valid() <==> (forall|i: int|
            0 <= i < w.generators@.len() ==> #[trigger] w.generators@[i].index + 1 < w.n),
{
}

/// The inverse word has the same length, and its i-th generator is the
/// (len-1-i)-th generator of the word with the same index and the opposite sign.
pub proof fn law_inverse_elements(gens: Seq<BraidGenerator>)
    ensures
        word_inverse(gens).len() == gens.len(),
        forall|i: int|
            0 <= i < gens.len() ==> {
                &&& (#[trigger] word_inverse(gens)[i]).index == gens[gens.len() - 1 - i].index
                &&& word_inverse(gens)[i].positive == !gens[gens.len() - 1 - i].positive
            },
{
}

/// The exponent sum of the empty word is 0, and appending a generator adds
/// 1 when it is positive and subtracts 1 when it is negative.
pub proof fn law_exponent_sum_step(gens: Seq<BraidGenerator>, g: BraidGenerator)
    ensures
        exponent_sum_of(Seq::<BraidGenerator>::empty()) == 0,
        exponent_sum_of(gens.push(g)) == exponent_sum_of(gens) + if g.positive {
            1int
        } else {
            -1int
        },
{
    assert(gens.push(g).drop_last() =~= gens);
}

/// The identity permutation of n strands has length n and holds i at position i.
pub proof fn law_identity_permutation(n: nat)
    requires
        n <= usize::MAX,
    ensures
        identity_permutation(n).len() == n,
        forall|i: int| 0 <= i < n ==> #[trigger] identity_permutation(n)[i] == i,
{
}

/// Applying no generator leaves a sequence unchanged, and appending a
/// generator σ_i (of either sign) exchanges exactly the entries at positions
/// i and i+1 of what the word before it gave.
pub proof fn law_permutation_step(p: Seq<usize>, gens: Seq<BraidGenerator>, g: BraidGenerator)
    requires
        indices_below(gens, p.len()),
        g.index + 1 < p.len(),
    ensures
        apply_swaps(p, Seq::<BraidGenerator>::empty()) == p,
        ({
            let q = apply_swaps(p, gens);
            let r = apply_swaps(p, gens.push(g));
            let i = g.index as int;
            &&& r.len() == p.len()
            &&& r[i] == q[i + 1]
            &&& r[i + 1] == q[i]
            &&& forall|k: int| 0 <= k < p.len() && k != i && k != i + 1 ==> #[trigger] r[k] == q[k]
        }),
{
    assert(gens.push(g).drop_last() =~= gens);
    lemma_apply_swaps_len(p, gens);
}

/// The permutation of the one-letter word σ_i^± in B_n is the identity with
/// i and i+1 exchanged.
pub proof fn law_single_generator_permutation(n: nat, g: BraidGenerator)
    requires
        n <= usize::MAX,
        g.index + 1 < n,
    ensures
        ({
            let r = apply_swaps(identity_permutation(n), seq![g]);
            let i = g.index as int;
            &&& r.len() == n
            &&& r[i] == i + 1
            &&& r[i + 1] == i
            &&& forall|k: int| 0 <= k < n && k != i && k != i + 1 ==> #[trigger] r[k] == k
        }),
{
    lemma_apply_swaps_single(identity_permutation(n), g);
}

/// The numeric value of a text of decimal digits, most significant first.
pub open spec fn digits_value(s: Seq<char>) -> int
    decreases s.len(),
{
    if s.len() == 0 {
        0
    } else {
        10 * digits_value(s.drop_last()) + (s.last() as u32 - 48)
    }
}

/// The digit d is the character with code '0' + d.
pub proof fn law_digit_char(d: nat)
    requires
        d < 10,
    ensures
        digit_char(d) as u32 == 48 + d,
{
}

/// The decimal text of n is its standard base-10 representation: it is made
/// of the characters '0'..'9', it reads back as n, and it starts with '0'
/// only for n = 0, which is the single character '0'.
pub proof fn law_decimal(n: nat)
    ensures
        decimal(n).len() >= 1,
        forall|i: int|
            0 <= i < decimal(n).len() ==> 48 <= (#[trigger] decimal(n)[i]) as u32 <= 57,
        digits_value(decimal(n)) == n,
        decimal(n)[0] == '0' ==> n == 0 && decimal(n).len() == 1,
    decreases n,
{
    if n >= 10 {
        law_decimal(n / 10);
        let s = decimal(n);
        assert(s.drop_last() =~= decimal(n / 10));
        law_digit_char(n % 10);
        assert(s[0] == decimal(n / 10)[0]);
        assert(s.last() == digit_char(n % 10));
        assert(digits_value(s) == 10 * digits_value(decimal(n / 10)) + (n % 10));
        assert(n == 10 * (n / 10) + n % 10);
    } else {
        law_digit_char(n);
        assert(decimal(n).drop_last() =~= Seq::<char>::empty());
        assert(digits_value(Seq::<char>::empty()) == 0);
        assert(decimal(n).last() == digit_char(n));
    }
}

/// The text of a generator σ_i^±: the letter σ, the decimal index, then ⁻¹
/// exactly when the generator is negative.
pub proof fn law_generator_text(g: BraidGenerator)
    ensures
        ({
            let t = generator_text(g);
            let d = decimal(g.index as nat);
            let dl = d.len() as int;
            &&& t.len() == 1 + d.len() + if g.positive {
                0int
            } else {
                2int
            }
            &&& t[0] == '\u{3c3}'
            &&& t.subrange(1, 1 + dl) == d
            &&& !g.positive ==> t[1 + dl] == '\u{207b}' && t[2 + dl] == '\u{b9}'
        }),
{
    let t = generator_text(g);
    let d = decimal(g.index as nat);
    let dl = d.len() as int;
    assert(t.subrange(1, 1 + dl) =~= d);
}

/// The text of a word: empty for the empty word, the generator's text for a
/// one-letter word, and a single space between consecutive generators' texts.
pub proof fn law_word_text(gens: Seq<BraidGenerator>, g: BraidGenerator)
    ensures
        word_text(Seq::<BraidGenerator>::empty()) == Seq::<char>::empty(),
        word_text(seq![g]) == generator_text(g),
        gens.len() > 0 ==> word_text(gens.push(g)) == word_text(gens) + seq![' '] + generator_text(
            g,
        ),
{
    assert(gens.push(g).drop_last() =~= gens);
}

/// The text of a braid: `B`, the number of strands in decimal, `(`, the
/// word's text, `)`.
pub proof fn law_braid_text(w: BraidWord)
    ensures
        ({
            let t = braid_text(w);
            let d = decimal(w.n as nat);
            let x = word_text(w.generators@);
            let dl = d.len() as int;
            let xl = x.len() as int;
            &&& t.len() == d.len() + x.len() + 3
            &&& t[0] == 'B'
            &&& t.subrange(1, 1 + dl) == d
            &&& t[1 + dl] == '('
            &&& t.subrange(2 + dl, 2 + dl + xl) == x
            &&& t[t.len() - 1] == ')'
        }),
{
    let t = braid_text(w);
    let d = decimal(w.n as nat);
    let x = word_text(w.generators@);
    let dl = d.len() as int;
    let xl = x.len() as int;
    assert(t.subrange(1, 1 + dl) =~= d);
    assert(t.subrange(2 + dl, 2 + dl + xl) =~= x);
}

/// The inverse of a generator has the same index and the opposite sign.
pub proof fn law_generator_inverse(g: BraidGenerator)
    ensures
        g.inverted().index == g.index,
        g.inverted().positive == !g.positive,
        g.sign() == if g.positive {
            1int
        } else {
            -1int
        },
{
}

} // verus!
