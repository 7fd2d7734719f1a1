//! Random Hamiltonian terms.
use vstd::prelude::*;
use rand::Rng;
use rand::rngs::ThreadRng;
use crate::code::fermions::{An, Cr, Fermions, Orbital};
use crate::code::qubits::Pauli;

verus! {

/// `rand`'s thread-local random number generator.
#[verifier::external_type_specification]
#[verifier::external_body]
pub struct ExThreadRng(ThreadRng);

/// `rand`'s `Rng::gen_range` on the inclusive range `low..=high`: a random
/// number within the range. It panics on an empty range, which `requires`
/// leaves out.
#[verifier::external_body]
fn gen_range_u32(rng: &mut ThreadRng, low: u32, high: u32) -> (r: u32)
    requires
        low <= high,
    ensures
        low <= r <= high,
{
    rng.gen_range(low..=high)
}

/// `rand`'s `Rng::gen` for `u64`: a random 64-bit integer, of which nothing
/// more is stated.
#[verifier::external_body]
fn gen_u64(rng: &mut ThreadRng) -> u64 {
    rng.gen()
}

/// The inclusive range of draw number `draw` of a term of kind `kind` (1 for
/// one-electron, 2 for two-electron terms), after the draw `prev` that it
/// depends on: the first index `p` in `0..=max - 2` (one-electron) or
/// `0..=max - 3` (two-electron); `q` in `p + 1..=max`; `s` in `p..=max - 2`;
/// `r` in `s + 1..=max`.
pub open spec fn draw_range(max: int, kind: int, draw: int, prev: int) -> (int, int) {
    if draw == 0 {
        (0, if kind == 1 { max - 2 } else { max - 3 })
    } else if draw == 2 {
        (prev, max - 2)
    } else {
        (prev + 1, max)
    }
}

/// The inclusive range of the kind of a term: 0 for the offset, 1 for a
/// one-electron, 2 for a two-electron term.
pub open spec fn kind_range() -> (int, int) {
    (0, 2)
}

/// The inclusive range of the kind of a term drawn by `random_fermi_code`.
pub fn fermi_kind_range() -> (r: (u32, u32))
    ensures
        (r.0 as int, r.1 as int) == kind_range(),
{
    (0, 2)
}

/// `v` lies in the inclusive range `range`.
pub open spec fn in_range(v: int, range: (int, int)) -> bool {
    range.0 <= v <= range.1
}

/// The draws of `random_fermi_code` are within their ranges: the kind in
/// `kind_range`; for a one-electron term `p`, then `q`; for a two-electron term
/// `p`, `q`, `s` and `r`, each in its `draw_range`.
pub open spec fn fermi_draws_in_range(max: int, kind: int, p: int, q: int, r: int, s: int) -> bool {
    &&& in_range(kind, kind_range())
    &&& kind == 1 ==> in_range(p, draw_range(max, 1, 0, 0)) && in_range(q, draw_range(max, 1, 1, p))
    &&& kind == 2 ==> in_range(p, draw_range(max, 2, 0, 0)) && in_range(q, draw_range(max, 2, 1, p))
        && in_range(s, draw_range(max, 2, 2, p)) && in_range(r, draw_range(max, 2, 3, s))
}

/// The inclusive range of a draw of `random_fermi_code`; it is never empty.
pub fn fermi_draw_range(max: u32, kind: u32, draw: u32, prev: u32) -> (r: (u32, u32))
    requires
        3 <= max < u32::MAX,
        1 <= kind <= 2,
        draw < 2 * kind,
        draw == 1 || draw == 3 ==> prev < max,
        draw == 2 ==> prev <= max - 2,
    ensures
        (r.0 as int, r.1 as int) == draw_range(max as int, kind as int, draw as int, prev as int),
        r.0 <= r.1,
{
    if draw == 0 {
        if kind == 1 {
            (0, max - 2)
        } else {
            (0, max - 3)
        }
    } else if draw == 2 {
        (prev, max - 2)
    } else {
        (prev + 1, max)
    }
}

/// The term that `random_fermi_code` builds from its draws: the offset for
/// kind 0, the one-electron term `(p, q)` for kind 1, the two-electron term
/// `(p, q, r, s)` for kind 2.
pub open spec fn fermi_code_of(kind: int, p: int, q: int, r: int, s: int) -> Fermions {
    if kind == 0 {
        Fermions::Offset
    } else if kind == 1 {
        Fermions::One { cr: Cr(Orbital::spec_with_index(p)), an: An(Orbital::spec_with_index(q)) }
    } else {
        Fermions::Two {
            cr: (Cr(Orbital::spec_with_index(p)), Cr(Orbital::spec_with_index(q))),
            an: (An(Orbital::spec_with_index(r)), An(Orbital::spec_with_index(s))),
        }
    }
}

/// A random fermionic term: the offset, a one-electron or a two-electron term
/// (each kind with probability 1/3), with orbital indices up to
/// `max_orbital_index` in canonical order.
pub fn random_fermi_code(rng: &mut ThreadRng, max_orbital_index: u32) -> (r: Fermions)
    requires
        3 <= max_orbital_index < u32::MAX,
    ensures
        r.valid(),
        r.canonical(),
        forall|i: int| 0 <= i < r.spec_indices().len() ==> 0 <= #[trigger] r.spec_indices()[i] <= max_orbital_index,
        exists|kind: int, p: int, q: int, rr: int, ss: int|
            fermi_draws_in_range(max_orbital_index as int, kind, p, q, rr, ss) && r == #[trigger] fermi_code_of(
                kind,
                p,
                q,
                rr,
                ss,
            ),
{
    let max_val = max_orbital_index;
    let (lo, hi) = fermi_kind_range();
    let kind = gen_range_u32(rng, lo, hi);
    if kind == 0 {
        fermi_code_from_draws(max_val, 0, 0, 0, 0, 0)
    } else if kind == 1 {
        let (lo, hi) = fermi_draw_range(max_val, 1, 0, 0);
        let p = gen_range_u32(rng, lo, hi);
        let (lo, hi) = fermi_draw_range(max_val, 1, 1, p);
        let q = gen_range_u32(rng, lo, hi);
        fermi_code_from_draws(max_val, 1, p, q, 0, 0)
    } else {
        let (lo, hi) = fermi_draw_range(max_val, 2, 0, 0);
        let p = gen_range_u32(rng, lo, hi);
        let (lo, hi) = fermi_draw_range(max_val, 2, 1, p);
        let q = gen_range_u32(rng, lo, hi);
        let (lo, hi) = fermi_draw_range(max_val, 2, 2, p);
        let s = gen_range_u32(rng, lo, hi);
        let (lo, hi) = fermi_draw_range(max_val, 2, 3, s);
        let r = gen_range_u32(rng, lo, hi);
        fermi_code_from_draws(max_val, 2, p, q, r, s)
    }
}

/// The term for the given draws: the offset for kind 0, the one-electron
/// term `(p, q)` for kind 1, the two-electron term `(p, q, r, s)` for kind 2.
/// The draws within their ranges give a valid term in canonical order, with
/// orbital indices up to `max`.
pub fn fermi_code_from_draws(max: u32, kind: u32, p: u32, q: u32, r: u32, s: u32) -> (f: Fermions)
    requires
        3 <= max < u32::MAX,
        fermi_draws_in_range(max as int, kind as int, p as int, q as int, r as int, s as int),
    ensures
        f == fermi_code_of(kind as int, p as int, q as int, r as int, s as int),
        f.valid(),
        f.canonical(),
        forall|i: int| 0 <= i < f.spec_indices().len() ==> 0 <= #[trigger] f.spec_indices()[i] <= max,
{
    if kind == 0 {
        Fermions::Offset
    } else if kind == 1 {
        let code = Fermions::one_electron(Cr(Orbital::with_index(p)), An(Orbital::with_index(q)));
        match code {
            Some(c) => c,
            None => Fermions::Offset,
        }
    } else {
        let code = Fermions::two_electron(
            (Cr(Orbital::with_index(p)), Cr(Orbital::with_index(q))),
            (An(Orbital::with_index(r)), An(Orbital::with_index(s))),
        );
        match code {
            Some(c) => c,
            None => Fermions::Offset,
        }
    }
}

/// A random Pauli string of 64 qubits.
pub fn random_pauli(rng: &mut ThreadRng) -> Pauli {
    let lo = gen_u64(rng);
    let hi = gen_u64(rng);
    Pauli::new((lo, hi))
}

} // verus!
