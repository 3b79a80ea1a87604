# lau_quantum_topology

Topological quantum computing primitives.

- `src/` is the verified library: anyon types and their fusion rules, braid
  words in B_n (generators, inverses, composition, exponent sum, permutation
  of strands, text form) and the fusion rules of the Fibonacci and Ising
  modular tensor categories with the lookup of fusion coefficients. Each
  function carries a contract; the laws of braid words (inverses cancel,
  composition adds exponent sums and composes permutations, the braid
  relations leave both invariants unchanged) and of fusion (commutativity,
  the vacuum as unit) are proved as proof functions.
- `app/` holds the numeric layer on top of it, which works with `f64` and
  `nalgebra` matrices: R- and F-matrices, Burau representations, Jones
  polynomials, quantum gates, TQFTs and modular data (S- and T-matrices),
  plus serde-enabled copies of the library's data types.
- `tests/` exercises the library.
