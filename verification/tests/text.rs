use f2q::code::fermions::{An, Cr, Fermions, Orbital};
use f2q::code::qubits::{Pauli, PauliOp};
use f2q::Error;

#[test]
fn fermions_display() {
    let code = Fermions::Offset;
    assert_eq!(code.to_string(), format!("[]"));

    let code = Fermions::one_electron(Cr(Orbital::with_index(1)), An(Orbital::with_index(2))).unwrap();
    assert_eq!(code.to_string(), format!("[1, 2]"));

    let code = Fermions::two_electron(
        (Cr(Orbital::with_index(1)), Cr(Orbital::with_index(2))),
        (An(Orbital::with_index(5)), An(Orbital::with_index(4))),
    )
    .unwrap();
    assert_eq!(code.to_string(), format!("[1, 2, 5, 4]"));
}

#[test]
fn fermicode_display() {
    let code = Fermions::Offset;
    assert_eq!(code.to_string(), format!("[]"));

    let code = Fermions::one_electron(Cr(Orbital::with_index(1)), An(Orbital::with_index(2))).unwrap();
    assert_eq!(code.to_string(), format!("[1, 2]"));

    let code = Fermions::two_electron(
        (Cr(Orbital::with_index(1)), Cr(Orbital::with_index(2))),
        (An(Orbital::with_index(5)), An(Orbital::with_index(4))),
    )
    .unwrap();
    assert_eq!(code.to_string(), format!("[1, 2, 5, 4]"));
}

#[test]
fn pauli_display() {
    assert_eq!(PauliOp::I.to_string(), "I");
    assert_eq!(PauliOp::X.to_string(), "X");
    assert_eq!(PauliOp::Y.to_string(), "Y");
    assert_eq!(PauliOp::Z.to_string(), "Z");
}

#[test]
fn pauli_text_roundtrip() {
    for code in [
        Pauli::default(),
        Pauli::new((0b1110_0100, 0)),
        Pauli::new((0, 1 << 63)),
        Pauli::new((u64::MAX, 12345)),
    ] {
        assert_eq!(Pauli::parse(&code.to_string()).unwrap(), code);
    }
    assert_eq!(Pauli::parse("IXYZ").unwrap(), Pauli::new((0b1110_0100, 0)));
}

#[test]
fn pauli_parse_errors() {
    assert!(Pauli::parse("").is_err());
    assert!(Pauli::parse("IP").is_err());
    let long = "I".repeat(65);
    assert!(Pauli::parse(&long).is_err());
    let max = "Z".repeat(64);
    assert_eq!(Pauli::parse(&max).unwrap(), Pauli::new((u64::MAX, u64::MAX)));
}

#[test]
fn fermions_indices_roundtrip() {
    for indices in [vec![], vec![1, 2], vec![3, 3], vec![1, 2, 5, 4], vec![0, 1, 1, 0]] {
        let code = Fermions::from_indices(&indices).unwrap();
        assert_eq!(code.indices(), indices);
    }
}

#[test]
fn fermions_from_indices_errors() {
    assert!(Fermions::from_indices(&[2, 1]).is_err());
    assert!(Fermions::from_indices(&[1]).is_err());
    assert!(Fermions::from_indices(&[1, 2, 3]).is_err());
    assert!(Fermions::from_indices(&[1, 2, 3, 4]).is_err());
    assert!(Fermions::from_indices(&[2, 1, 5, 4]).is_err());
    assert!(Fermions::from_indices(&[3, 4, 5, 2]).is_err());
    assert!(Fermions::from_indices(&[1, 2, 3, 4, 5]).is_err());
}

#[test]
fn error_to_string() {
    let err = Error::QubitIndex { msg: "index out of range".to_string() };
    assert_eq!(err.to_string(), "PauliIndex: index out of range");
}
