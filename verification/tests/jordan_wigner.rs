use f2q::code::fermions::{An, Cr, Fermions, Orbital};
use f2q::code::qubits::Pauli;
use f2q::code::qubits::PauliOp::{I, X, Y, Z};
use f2q::map::jordan_wigner::LadderOp;
use f2q::map::JordanWigner;
use f2q::math::ReIm::{Im, Re};
use f2q::math::{ReIm, Root4};
use f2q::terms::{SumRepr, Terms};

fn jw_get_result(repr: &SumRepr<f64, Fermions>) -> Vec<(f64, Pauli)> {
    let mut jw_map = JordanWigner::new(repr);
    let mut pauli_repr = SumRepr::new();
    jw_map.add_to(&mut pauli_repr).unwrap();
    let mut result = vec![];
    pauli_repr.add_to(&mut result).unwrap();
    result.sort_by(|(_, pauli_a), (_, pauli_b)| pauli_a.cmp(pauli_b));
    result
}

fn jw_check_mapping(list: &[(f64, Fermions)], expected: &[(f64, Pauli)]) {
    let mut repr = SumRepr::new();
    for &(coeff, code) in list {
        repr.add_term(code, coeff);
    }
    assert_eq!(jw_get_result(&repr), expected);
}

#[test]
fn jw_offset() {
    jw_check_mapping(&[(1.0, Fermions::Offset)], &[(1.0, Pauli::identity())]);

    jw_check_mapping(
        &[(1.0, Fermions::Offset), (2.0, Fermions::Offset)],
        &[(3.0, Pauli::identity())],
    );
}

#[test]
fn jw_one_elec_01() {
    jw_check_mapping(
        &[(1.0, Fermions::try_from((0, 0)).unwrap())],
        &[(1.0, Pauli::identity()), (-1.0, Pauli::from_paulis(&[Z]))],
    );

    jw_check_mapping(
        &[(1.0, Fermions::try_from((1, 1)).unwrap())],
        &[(1.0, Pauli::identity()), (-1.0, Pauli::from_paulis(&[I, Z]))],
    );

    jw_check_mapping(
        &[(1.0, Fermions::try_from((2, 2)).unwrap())],
        &[(1.0, Pauli::identity()), (-1.0, Pauli::from_paulis(&[I, I, Z]))],
    );

    jw_check_mapping(
        &[(1.0, Fermions::try_from((32, 32)).unwrap())],
        &[(1.0, Pauli::identity()), (-1.0, Pauli::new((0, 0b11)))],
    );

    jw_check_mapping(
        &[(1.0, Fermions::try_from((33, 33)).unwrap())],
        &[(1.0, Pauli::identity()), (-1.0, Pauli::new((0, 0b1100)))],
    );

    jw_check_mapping(
        &[(1.0, Fermions::try_from((63, 63)).unwrap())],
        &[(1.0, Pauli::identity()), (-1.0, Pauli::new((0, 0b11 << 62)))],
    );
}

#[test]
fn jw_one_elec_02() {
    jw_check_mapping(
        &[(2.0, Fermions::try_from((0, 1)).unwrap())],
        &[(1.0, Pauli::from_paulis(&[X, X])), (1.0, Pauli::from_paulis(&[Y, Y]))],
    );

    jw_check_mapping(
        &[(2.0, Fermions::try_from((0, 2)).unwrap())],
        &[(1.0, Pauli::from_paulis(&[X, Z, X])), (1.0, Pauli::from_paulis(&[Y, Z, Y]))],
    );

    jw_check_mapping(
        &[(2.0, Fermions::try_from((1, 4)).unwrap())],
        &[(1.0, Pauli::from_paulis(&[I, X, Z, Z, X])), (1.0, Pauli::from_paulis(&[I, Y, Z, Z, Y]))],
    );

    jw_check_mapping(
        &[(2.0, Fermions::try_from((2, 5)).unwrap())],
        &[(1.0, Pauli::from_paulis(&[I, I, X, Z, Z, X])), (1.0, Pauli::from_paulis(&[I, I, Y, Z, Z, Y]))],
    );
}

#[test]
fn jw_one_elec_03() {
    jw_check_mapping(
        &[(2.0, Fermions::try_from((0, 32)).unwrap())],
        &[
            (1.0, Pauli::new((0xffff_ffff_ffff_fffd, 0x1))),
            (1.0, Pauli::new((0xffff_ffff_ffff_fffe, 0x2))),
        ],
    );

    jw_check_mapping(
        &[(2.0, Fermions::try_from((0, 63)).unwrap())],
        &[
            (1.0, Pauli::new((0xffff_ffff_ffff_fffd, 0x7fff_ffff_ffff_ffff))),
            (1.0, Pauli::new((0xffff_ffff_ffff_fffe, 0xbfff_ffff_ffff_ffff))),
        ],
    );
}

#[test]
fn jw_two_elec_01() {
    jw_check_mapping(
        &[(2.0, Fermions::try_from((0, 1, 1, 0)).unwrap())],
        &[
            (1.0, Pauli::identity()),
            (-1.0, Pauli::from_paulis(&[Z])),
            (-1.0, Pauli::from_paulis(&[I, Z])),
            (1.0, Pauli::from_paulis(&[Z, Z])),
        ],
    );

    jw_check_mapping(
        &[(2.0, Fermions::try_from((0, 2, 2, 0)).unwrap())],
        &[
            (1.0, Pauli::identity()),
            (-1.0, Pauli::from_paulis(&[Z])),
            (-1.0, Pauli::from_paulis(&[I, I, Z])),
            (1.0, Pauli::from_paulis(&[Z, I, Z])),
        ],
    );

    jw_check_mapping(
        &[(2.0, Fermions::try_from((1, 3, 3, 1)).unwrap())],
        &[
            (1.0, Pauli::identity()),
            (-1.0, Pauli::from_paulis(&[I, Z])),
            (-1.0, Pauli::from_paulis(&[I, I, I, Z])),
            (1.0, Pauli::from_paulis(&[I, Z, I, Z])),
        ],
    );
}

#[test]
fn jw_two_elec_02() {
    jw_check_mapping(
        &[(2.0, Fermions::try_from((0, 32, 32, 0)).unwrap())],
        &[
            (1.0, Pauli::identity()),
            (-1.0, Pauli::new((3, 0))),
            (-1.0, Pauli::new((0, 3))),
            (1.0, Pauli::new((3, 3))),
        ],
    );

    jw_check_mapping(
        &[(2.0, Fermions::try_from((0, 63, 63, 0)).unwrap())],
        &[
            (1.0, Pauli::identity()),
            (-1.0, Pauli::new((3, 0))),
            (-1.0, Pauli::new((0, 0b11 << 62))),
            (1.0, Pauli::new((3, 0b11 << 62))),
        ],
    );

    jw_check_mapping(
        &[(2.0, Fermions::try_from((32, 63, 63, 32)).unwrap())],
        &[
            (1.0, Pauli::identity()),
            (-1.0, Pauli::new((0, 3))),
            (-1.0, Pauli::new((0, 0b11 << 62))),
            (1.0, Pauli::new((0, 3 + (0b11 << 62)))),
        ],
    );
}

#[test]
fn jw_two_elec_03() {
    jw_check_mapping(
        &[(4.0, Fermions::try_from((0, 2, 2, 1)).unwrap())],
        &[
            (1.0, Pauli::from_paulis(&[X, X, I])),
            (1.0, Pauli::from_paulis(&[Y, Y, I])),
            (-1.0, Pauli::from_paulis(&[X, X, Z])),
            (-1.0, Pauli::from_paulis(&[Y, Y, Z])),
        ],
    );

    jw_check_mapping(
        &[(4.0, Fermions::try_from((1, 3, 3, 2)).unwrap())],
        &[
            (1.0, Pauli::from_paulis(&[I, X, X, I])),
            (1.0, Pauli::from_paulis(&[I, Y, Y, I])),
            (-1.0, Pauli::from_paulis(&[I, X, X, Z])),
            (-1.0, Pauli::from_paulis(&[I, Y, Y, Z])),
        ],
    );

    jw_check_mapping(
        &[(4.0, Fermions::try_from((1, 4, 4, 2)).unwrap())],
        &[
            (1.0, Pauli::from_paulis(&[I, X, X, I, I])),
            (1.0, Pauli::from_paulis(&[I, Y, Y, I, I])),
            (-1.0, Pauli::from_paulis(&[I, X, X, I, Z])),
            (-1.0, Pauli::from_paulis(&[I, Y, Y, I, Z])),
        ],
    );
}

#[test]
fn jw_two_elec_04() {
    jw_check_mapping(
        &[(4.0, Fermions::try_from((0, 3, 3, 2)).unwrap())],
        &[
            (1.0, Pauli::from_paulis(&[X, Z, X, I])),
            (1.0, Pauli::from_paulis(&[Y, Z, Y, I])),
            (-1.0, Pauli::from_paulis(&[X, Z, X, Z])),
            (-1.0, Pauli::from_paulis(&[Y, Z, Y, Z])),
        ],
    );

    jw_check_mapping(
        &[(4.0, Fermions::try_from((1, 4, 4, 3)).unwrap())],
        &[
            (1.0, Pauli::from_paulis(&[I, X, Z, X, I])),
            (1.0, Pauli::from_paulis(&[I, Y, Z, Y, I])),
            (-1.0, Pauli::from_paulis(&[I, X, Z, X, Z])),
            (-1.0, Pauli::from_paulis(&[I, Y, Z, Y, Z])),
        ],
    );
}

#[test]
fn jw_two_elec_05() {
    jw_check_mapping(
        &[(4.0, Fermions::try_from((0, 32, 32, 1)).unwrap())],
        &[
            (1.0, Pauli::new((0b0101, 0))),
            (1.0, Pauli::new((0b1010, 0))),
            (-1.0, Pauli::new((0b0101, 0b11))),
            (-1.0, Pauli::new((0b1010, 0b11))),
        ],
    );

    jw_check_mapping(
        &[(4.0, Fermions::try_from((0, 63, 63, 2)).unwrap())],
        &[
            (1.0, Pauli::new((0b01_1101, 0))),
            (1.0, Pauli::new((0b10_1110, 0))),
            (-1.0, Pauli::new((0b01_1101, 0b11 << 62))),
            (-1.0, Pauli::new((0b10_1110, 0b11 << 62))),
        ],
    );

    jw_check_mapping(
        &[(4.0, Fermions::try_from((0, 63, 63, 32)).unwrap())],
        &[
            (1.0, Pauli::new((0b01 + (u64::MAX >> 2 << 2), 0b01))),
            (1.0, Pauli::new((0b10 + (u64::MAX >> 2 << 2), 0b10))),
            (-1.0, Pauli::new((0b01 + (u64::MAX >> 2 << 2), 0b01 + (u64::MAX >> 2 << 62)))),
            (-1.0, Pauli::new((0b10 + (u64::MAX >> 2 << 2), 0b10 + (u64::MAX >> 2 << 62)))),
        ],
    );

    jw_check_mapping(
        &[(4.0, Fermions::try_from((32, 63, 63, 34)).unwrap())],
        &[
            (1.0, Pauli::new((0, 0b01_1101))),
            (1.0, Pauli::new((0, 0b10_1110))),
            (-1.0, Pauli::new((0, 0b01_1101 + (0b11 << 62)))),
            (-1.0, Pauli::new((0, 0b10_1110 + (0b11 << 62)))),
        ],
    );
}

/// The terms of the product of operators applied to `coeff` times the
/// identity, each with its weight as a real or imaginary number.
fn mul_iter(ops: &[LadderOp], coeff: f64) -> Vec<(ReIm<f64>, Pauli)> {
    let mut terms = vec![(Root4::R0, Pauli::identity())];
    for op in ops.iter().rev() {
        terms = op.mul_terms(&terms);
    }
    let weight = coeff / f64::from(1u32 << ops.len());
    terms.into_iter().map(|(root, pauli)| (ReIm::from(root) * Re(weight), pauli)).collect()
}

fn an(index: u32) -> LadderOp {
    LadderOp::try_from(An(Orbital::with_index(index))).unwrap()
}

fn cr(index: u32) -> LadderOp {
    LadderOp::try_from(Cr(Orbital::with_index(index))).unwrap()
}

#[test]
fn mul_iter_01() {
    let result = mul_iter(&[an(0)], 2.0);
    assert_eq!(result, &[(Re(1.0), Pauli::from_paulis(&[X])), (Im(1.0), Pauli::from_paulis(&[Y])),]);
}

#[test]
fn mul_iter_02() {
    let result = mul_iter(&[cr(0)], 2.0);
    assert_eq!(result, &[(Re(1.0), Pauli::from_paulis(&[X])), (Im(-1.0), Pauli::from_paulis(&[Y])),]);
}

#[test]
fn mul_iter_03() {
    let result = mul_iter(&[an(3)], 2.0);
    assert_eq!(
        result,
        &[(Re(1.0), Pauli::from_paulis(&[Z, Z, Z, X])), (Im(1.0), Pauli::from_paulis(&[Z, Z, Z, Y])),]
    );
}

#[test]
fn mul_iter_04() {
    let result = mul_iter(&[cr(3)], 2.0);
    assert_eq!(
        result,
        &[(Re(1.0), Pauli::from_paulis(&[Z, Z, Z, X])), (Im(-1.0), Pauli::from_paulis(&[Z, Z, Z, Y])),]
    );
}

#[test]
fn mul_iter_05() {
    let result = mul_iter(&[an(0), an(0)], 4.0);
    assert_eq!(
        result,
        &[
            (Re(1.0), Pauli::from_paulis(&[I])),
            (Re(1.0), Pauli::from_paulis(&[Z])),
            (Re(-1.0), Pauli::from_paulis(&[Z])),
            (Re(-1.0), Pauli::from_paulis(&[I])),
        ]
    );
}

#[test]
fn mul_iter_06() {
    let result = mul_iter(&[cr(0), cr(0)], 4.0);
    assert_eq!(
        result,
        &[
            (Re(1.0), Pauli::from_paulis(&[I])),
            (Re(-1.0), Pauli::from_paulis(&[Z])),
            (Re(1.0), Pauli::from_paulis(&[Z])),
            (Re(-1.0), Pauli::from_paulis(&[I])),
        ]
    );
}

#[test]
fn mul_iter_07() {
    let result = mul_iter(&[cr(0), an(0)], 4.0);
    assert_eq!(
        result,
        &[
            (Re(1.0), Pauli::from_paulis(&[I])),
            (Re(-1.0), Pauli::from_paulis(&[Z])),
            (Re(-1.0), Pauli::from_paulis(&[Z])),
            (Re(1.0), Pauli::from_paulis(&[I])),
        ]
    );
}

#[test]
fn mul_iter_08() {
    let result = mul_iter(&[cr(2), an(2)], 4.0);
    assert_eq!(
        result,
        &[
            (Re(1.0), Pauli::from_paulis(&[I])),
            (Re(-1.0), Pauli::from_paulis(&[I, I, Z])),
            (Re(-1.0), Pauli::from_paulis(&[I, I, Z])),
            (Re(1.0), Pauli::from_paulis(&[I])),
        ]
    );
}

#[test]
fn mul_iter_09() {
    let result = mul_iter(&[cr(1), an(0)], 4.0);
    assert_eq!(
        result,
        &[
            (Im(1.0), Pauli::from_paulis(&[Y, X])),
            (Re(1.0), Pauli::from_paulis(&[Y, Y])),
            (Re(1.0), Pauli::from_paulis(&[X, X])),
            (Im(-1.0), Pauli::from_paulis(&[X, Y])),
        ]
    );
}

#[test]
fn mul_iter_10() {
    let result = mul_iter(&[cr(0), an(1)], 4.0);
    assert_eq!(
        result,
        &[
            (Im(-1.0), Pauli::from_paulis(&[Y, X])),
            (Re(1.0), Pauli::from_paulis(&[X, X])),
            (Re(1.0), Pauli::from_paulis(&[Y, Y])),
            (Im(1.0), Pauli::from_paulis(&[X, Y])),
        ]
    );
}

#[test]
fn mul_iter_11() {
    let result = mul_iter(&[cr(2), an(0)], 4.0);
    assert_eq!(
        result,
        &[
            (Im(1.0), Pauli::from_paulis(&[Y, Z, X])),
            (Re(1.0), Pauli::from_paulis(&[Y, Z, Y])),
            (Re(1.0), Pauli::from_paulis(&[X, Z, X])),
            (Im(-1.0), Pauli::from_paulis(&[X, Z, Y])),
        ]
    );
}

#[test]
fn jw_hopping_across_occupied_orbital() {
    jw_check_mapping(
        &[(4.0, Fermions::try_from((1, 3, 5, 3)).unwrap())],
        &[
            (1.0, Pauli::from_paulis(&[I, X, Z, I, Z, X])),
            (-1.0, Pauli::from_paulis(&[I, X, Z, Z, Z, X])),
            (1.0, Pauli::from_paulis(&[I, Y, Z, I, Z, Y])),
            (-1.0, Pauli::from_paulis(&[I, Y, Z, Z, Z, Y])),
        ],
    );
}

#[test]
fn jw_coulomb_terms_add_up() {
    for (p, q) in [(0, 1), (3, 17), (31, 32), (2, 63)] {
        jw_check_mapping(
            &[(8.0, Fermions::try_from((p, q, q, p)).unwrap())],
            &{
                let mut zp = Pauli::identity();
                zp.set(p as u16, Z);
                let mut zq = Pauli::identity();
                zq.set(q as u16, Z);
                let mut zz = zp;
                zz.set(q as u16, Z);
                [(4.0, Pauli::identity()), (-4.0, zp), (-4.0, zq), (4.0, zz)]
            },
        );
    }
}
