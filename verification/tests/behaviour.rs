use f2q::code::fermions::{An, Cr, Fermions, Orbital};
use f2q::generate::{fermi_code_from_draws, fermi_draw_range, fermi_kind_range};
use f2q::map::JordanWigner;
use f2q::code::qubits::{Pauli, PauliOp};
use f2q::generate::{random_fermi_code, random_pauli};
use f2q::serialize::{check_header, Encoding};
use f2q::terms::{StackRepr, SumRepr, Terms};

#[test]
fn pauli_mut_01() {
    let mut code = Pauli::default();
    assert_eq!(code.pauli(7).unwrap(), PauliOp::I);

    code.pauli_mut(7, |x| {
        if let Some(pauli) = x {
            *pauli = PauliOp::Z;
        }
    });
    assert_eq!(code.pauli(7).unwrap(), PauliOp::Z);
}

#[test]
fn pauli_mut_out_of_range() {
    let mut code = Pauli::new((0, 0b01));
    assert_eq!(code.pauli(32), Some(PauliOp::X));

    code.pauli_mut(32, |x| {
        if let Some(pauli) = x {
            *pauli = PauliOp::Y
        }
    });
    assert_eq!(code.pauli(32), Some(PauliOp::Y));

    let mut was_it_none = false;
    code.pauli_mut(64, |x| {
        if x.is_none() {
            was_it_none = true
        }
    });
    assert!(was_it_none);
    assert_eq!(code, Pauli::new((0, 0b10)));
}

#[test]
fn pauli_iter_order() {
    let code = Pauli::new((0b1110_0100, 0b11));
    let mut iter = code.into_iter();
    let mut ops = vec![];
    while let Some(op) = iter.next() {
        ops.push(op);
    }
    assert_eq!(ops.len(), 64);
    assert_eq!(&ops[..4], &[PauliOp::I, PauliOp::X, PauliOp::Y, PauliOp::Z]);
    assert_eq!(ops[32], PauliOp::Z);
    assert_eq!(ops, code.paulis());
    assert_eq!(iter.next(), None);
}

#[test]
fn sumrepr_iter_mut() {
    let mut repr = SumRepr::new();
    repr.update(Pauli::default(), 0.5);
    repr.update(Pauli::new((1, 0)), 0.5);
    repr.iter_mut(|coeff, _| coeff + 0.1);

    assert_eq!(repr.coeff(Pauli::default()), 0.6);
    assert_eq!(repr.coeff(Pauli::new((1, 0))), 0.6);
    assert_eq!(repr.len(), 2);
}

#[test]
fn sumrepr_get_update_coeff() {
    let mut repr = SumRepr::new();
    assert!(repr.is_empty());
    assert_eq!(repr.get(3u64), None);
    assert_eq!(repr.coeff(3u64), 0.0);

    assert_eq!(repr.update(3u64, 1.5), None);
    assert_eq!(repr.update(3u64, 2.5), Some(1.5));
    assert_eq!(repr.get(3u64), Some(2.5));
    assert!(!repr.is_empty());

    repr.add_term(3u64, 1.0);
    repr.add_term(4u64, -1.0);
    assert_eq!(repr.coeff(3u64), 3.5);
    assert_eq!(repr.coeff(4u64), -1.0);
    assert_eq!(repr.len(), 2);
}

#[test]
fn sumrepr_capacity() {
    let repr: SumRepr<f64, u64> = SumRepr::with_capacity(100);
    assert!(repr.capacity() >= 100);
    assert!(repr.is_empty());
}

#[test]
fn stackrepr_adds_each_term() {
    let mut iter = [(1.0, 1u64), (2.0, 2u64), (3.0, 1u64)].into_iter();
    let mut repr = StackRepr::new(|| iter.next());

    let mut target = SumRepr::new();
    target.update(2u64, 10.0);
    repr.add_to(&mut target).unwrap();
    assert_eq!(target.len(), 2);
    assert_eq!(target.coeff(1u64), 4.0);
    assert_eq!(target.coeff(2u64), 12.0);
}

#[test]
fn encoding_names() {
    assert_eq!(Encoding::Qubits.name(), "qubits");
    assert_eq!(Encoding::Fermions.name(), "fermions");
    assert_eq!(Encoding::from_name("qubits"), Some(Encoding::Qubits));
    assert_eq!(Encoding::from_name("fermions"), Some(Encoding::Fermions));
    assert_eq!(Encoding::from_name("qubit"), None);
}

#[test]
fn header_checks() {
    assert!(check_header("sumrepr", Encoding::Fermions, Encoding::Fermions).is_ok());
    assert!(check_header("sumrepr", Encoding::Qubits, Encoding::Qubits).is_ok());
    assert!(check_header("sumrep", Encoding::Qubits, Encoding::Qubits).is_err());
    assert!(check_header("sumrepr", Encoding::Qubits, Encoding::Fermions).is_err());
}

#[test]
fn random_fermi_codes_are_canonical() {
    let mut rng = rand::thread_rng();
    for _ in 0..200 {
        let code = random_fermi_code(&mut rng, 5);
        let indices = code.indices();
        assert!(indices.iter().all(|&i| i <= 5));
        assert_eq!(Fermions::from_indices(&indices).unwrap(), code);
    }
}

#[test]
fn random_paulis_parse_back() {
    let mut rng = rand::thread_rng();
    for _ in 0..20 {
        let code = random_pauli(&mut rng);
        assert_eq!(Pauli::parse(&code.to_string()).unwrap(), code);
    }
}

#[test]
fn stackrepr_list_keeps_call_order() {
    let mut iter = [(1.0, 3u64), (2.0, 1u64), (3.0, 3u64)].into_iter();
    let mut repr = StackRepr::new(|| iter.next());

    let mut out = vec![(0.5, 7u64)];
    repr.add_to(&mut out).unwrap();
    assert_eq!(out, vec![(0.5, 7), (1.0, 3), (2.0, 1), (3.0, 3)]);
}

#[test]
fn sumrepr_capacity_after_with_capacity() {
    let repr: SumRepr<f64, Pauli> = SumRepr::with_capacity(8);
    assert!(repr.capacity() >= 8);
    let mut repr = repr;
    repr.add_term(Pauli::identity(), 1.0);
    assert!(repr.capacity() >= repr.len());
}

#[test]
fn jordan_wigner_error_message() {
    let mut fermi = SumRepr::new();
    fermi.add_term(Fermions::try_from((0, 64)).unwrap(), 1.0);
    let mut out: SumRepr<f64, Pauli> = SumRepr::new();
    let err = JordanWigner::new(&fermi).add_to(&mut out).unwrap_err();
    assert_eq!(err, f2q::Error::QubitIndex { msg: "orbital index must be within 0..=63".to_string() });
    assert!(out.is_empty());
}

#[test]
fn fermi_code_from_draws_builds_terms() {
    assert_eq!(fermi_code_from_draws(5, 0, 0, 0, 0, 0), Fermions::Offset);
    assert_eq!(
        fermi_code_from_draws(5, 1, 1, 4, 0, 0),
        Fermions::one_electron(Cr(Orbital::with_index(1)), An(Orbital::with_index(4))).unwrap()
    );
    assert_eq!(fermi_code_from_draws(5, 2, 0, 3, 5, 2), Fermions::try_from((0, 3, 5, 2)).unwrap());
}

#[test]
fn fermi_draw_ranges() {
    assert_eq!(fermi_kind_range(), (0, 2));
    assert_eq!(fermi_draw_range(10, 1, 0, 0), (0, 8));
    assert_eq!(fermi_draw_range(10, 1, 1, 4), (5, 10));
    assert_eq!(fermi_draw_range(10, 2, 0, 0), (0, 7));
    assert_eq!(fermi_draw_range(10, 2, 1, 3), (4, 10));
    assert_eq!(fermi_draw_range(10, 2, 2, 3), (3, 8));
    assert_eq!(fermi_draw_range(10, 2, 3, 8), (9, 10));
}

#[test]
fn pauli_iteration_then_none() {
    let code = Pauli::new((0b11_1001, 0));
    let mut iter = code.into_iter();
    let first: Vec<_> = (0..5).map(|_| iter.next().unwrap()).collect();
    assert_eq!(first, vec![PauliOp::X, PauliOp::Y, PauliOp::Z, PauliOp::I, PauliOp::I]);
    for _ in 5..64 {
        assert!(iter.next().is_some());
    }
    for _ in 0..3 {
        assert_eq!(iter.next(), None);
    }
    assert_eq!(Pauli::from_paulis(&code.paulis()), code);
}
