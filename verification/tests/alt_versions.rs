use f2q::code::fermions::{Fermions, Orbital, Spin};
use f2q::code::qubits::Pauli;
use f2q::map::JordanWigner;
use f2q::math::Group;
use f2q::math::Root4;
use f2q::math::Root4::{R0, R1, R2, R3};
use f2q::terms::{SumRepr, Terms};

#[test]
fn mod_test_spin_init_01() {
    let spin = Spin::Down;
    assert_eq!(u8::from(spin), 0);
    let spin = Spin::Up;
    assert_eq!(u8::from(spin), 1);

    let spin = Spin::default();
    assert_eq!(u8::from(spin), 0);
}

#[test]
fn mod_test_orbital_enumerate_01() {
    let orb = Orbital::default();
    assert_eq!(orb.index(), 0);

    let orb = Orbital::new(3, Spin::Down);
    assert_eq!(orb.index(), 6);

    let orb = Orbital::new(8, Spin::Up);
    assert_eq!(orb.index(), 17);
}

#[test]
fn mod_orbital_from_index_01() {
    assert_eq!(Orbital::with_index(1).index(), 1);
    assert_eq!(Orbital::with_index(2).index(), 2);
    assert_eq!(Orbital::with_index(19).index(), 19);
}

#[allow(clippy::reversed_empty_ranges)]
#[test]
fn mod_orbital_gen_range_03() {
    let orbitals: Vec<_> = Orbital::gen_range(2..0);
    assert!(orbitals.is_empty());

    let orbitals: Vec<_> = Orbital::gen_range(3..1);
    assert!(orbitals.is_empty());
}

#[test]
fn lib_test_spin_init_01() {
    let spin = Spin::Down;
    assert_eq!(u8::from(spin), 0);
    let spin = Spin::Up;
    assert_eq!(u8::from(spin), 1);

    let spin = Spin::default();
    assert_eq!(u8::from(spin), 0);
}

#[test]
fn lib_test_orbital_enumerate_01() {
    let orb = Orbital::default();
    assert_eq!(orb.index(), 0);

    let orb = Orbital::new(3, Spin::Down);
    assert_eq!(orb.index(), 6);

    let orb = Orbital::new(8, Spin::Up);
    assert_eq!(orb.index(), 17);
}

#[test]
fn lib_orbital_from_index_01() {
    assert_eq!(Orbital::with_index(1).index(), 1);
    assert_eq!(Orbital::with_index(2).index(), 2);
    assert_eq!(Orbital::with_index(19).index(), 19);
}

#[allow(clippy::reversed_empty_ranges)]
#[test]
fn lib_orbital_gen_range_03() {
    let orbitals: Vec<_> = Orbital::gen_range(2..0);
    assert!(orbitals.is_empty());

    let orbitals: Vec<_> = Orbital::gen_range(3..1);
    assert!(orbitals.is_empty());
}

#[test]
fn lib_test_sumrepr_init_01() {
    let code = Pauli::new((1234, 0));
    let mut hamil = SumRepr::new();

    hamil.update(code, 4321.);
    let coeff = hamil.coeff(code);
    assert!(f64::abs(coeff - 4321.) < f64::EPSILON);
}

#[test]
fn mod_test_sumrepr_init_01() {
    let code = Pauli::new((1234, 0));
    let mut hamil = SumRepr::new();

    hamil.update(code, 4321.);
    let coeff = hamil.coeff(code);
    assert!(f64::abs(coeff - 4321.) < f64::EPSILON);
}

const MOCK_COEFF: f64 = 0.12345;

#[test]
fn jordan_wigner_01() {
    let mut fermi_sum = SumRepr::new();
    fermi_sum.add_term(Fermions::Offset, MOCK_COEFF);

    let mut pauli_sum = SumRepr::new();
    JordanWigner::new(&fermi_sum).add_to(&mut pauli_sum).unwrap();

    let coeff = pauli_sum.get(Pauli::default()).unwrap();
    assert!((coeff - MOCK_COEFF).abs() < f64::EPSILON, "{MOCK_COEFF} {coeff}");
}

#[test]
fn mod_root4_identity() {
    assert_eq!(Root4::identity(), Root4::R0);
}

#[test]
fn mod_root4_inverse() {
    assert_eq!(Root4::R0.inverse(), Root4::R0);
    assert_eq!(Root4::R1.inverse(), Root4::R1);
    assert_eq!(Root4::R2.inverse(), Root4::R3);
    assert_eq!(Root4::R3.inverse(), Root4::R2);
}

#[test]
fn mod_root4_mul() {
    assert_eq!(R0 * R0, R0);
    assert_eq!(R0 * R1, R1);
    assert_eq!(R0 * R2, R2);
    assert_eq!(R0 * R3, R3);

    assert_eq!(R1 * R0, R1);
    assert_eq!(R1 * R1, R0);
    assert_eq!(R1 * R2, R3);
    assert_eq!(R1 * R3, R2);

    assert_eq!(R2 * R0, R2);
    assert_eq!(R2 * R1, R3);
    assert_eq!(R2 * R2, R1);
    assert_eq!(R2 * R3, R0);

    assert_eq!(R3 * R0, R3);
    assert_eq!(R3 * R1, R2);
    assert_eq!(R3 * R2, R0);
    assert_eq!(R3 * R3, R1);
}

#[test]
fn mod_root4_neg() {
    assert_eq!(-Root4::R0, Root4::R1);
    assert_eq!(-Root4::R1, Root4::R0);
    assert_eq!(-Root4::R2, Root4::R3);
    assert_eq!(-Root4::R3, Root4::R2);
}

#[test]
fn mod_root4_conj() {
    assert_eq!(Root4::R0.conj(), Root4::R0);
    assert_eq!(Root4::R1.conj(), Root4::R1);
    assert_eq!(Root4::R2.conj(), Root4::R3);
    assert_eq!(Root4::R3.conj(), Root4::R2);
}
