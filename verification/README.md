# f2q

Fermion-to-qubit mappings: Pauli Hamiltonians with up to 64 qubits,
second-quantized fermionic Hamiltonians, and the Jordan-Wigner mapping between
them, verified with Verus.

- `src/` is the library, verified by Verus. Five items are trusted: wrappers of
  `String::push`, `HashMap::capacity`, `Rng::gen_range` and `Rng::gen`, and the
  declaration of `rand`'s `ThreadRng`. Functions whose result is random state
  what holds of every outcome. The modules:
  - `code/qubits.rs`: Pauli operators and strings (packed into two `u64`), their
    text form, products and the Pauli group;
  - `code/fermions.rs`: spins, orbitals, creation/annihilation operators and
    fermionic terms in canonical order;
  - `terms.rs`: sums of terms keyed by code (`SumRepr`) and producers of terms;
  - `map/jordan_wigner.rs`: the Jordan-Wigner image of fermionic sums, with
    closed forms of the images of one-electron terms and of `a†_p a†_q a_q a_p`;
  - `math.rs`: fourth roots of unity and the group laws;
  - `serialize.rs`, `generate.rs`, `text.rs`: names and headers of serialized
    sums, random terms, and text helpers.
- `app/` is the command line tool (`generate`, `convert`): argument parsing,
  files, JSON/YAML/TOML and floating-point coefficients.
- `tests/` runs the library on concrete values.
