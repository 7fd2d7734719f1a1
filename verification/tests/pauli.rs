use f2q::code::qubits::Pauli;
use f2q::code::qubits::PauliOp;
use f2q::code::qubits::PauliOp::{I, X, Y, Z};

#[test]
fn init() {
    let code = Pauli::new((0b01, 0b00));
    assert_eq!(code.index(), 0b01);
}

#[test]
fn default() {
    let code = Pauli::default();
    assert_eq!(code, Pauli::new((0, 0)));
}

#[test]
fn pauli_pauli_02() {
    let code = Pauli::new((0b0101, 0b00));

    assert_eq!(code.pauli(0), Some(PauliOp::X));
    assert_eq!(code.pauli(1), Some(PauliOp::X));
    assert_eq!(code.pauli(2), Some(PauliOp::I));
    assert_eq!(code.pauli(63), Some(PauliOp::I));

    assert_eq!(code.pauli(64), None);
    assert_eq!(code.pauli(123), None);
}

#[test]
fn set_pauli_01() {
    let mut code = Pauli::new((29_332_281_938, 0b00));
    assert_eq!(code.pauli(7).unwrap(), PauliOp::I);

    code.set(7, PauliOp::Y);
    assert_eq!(code.pauli(7).unwrap(), PauliOp::Y);
}

#[test]
fn set_pauli_03() {
    let mut code = Pauli::default();

    for i in 0..13 {
        code.set(i, PauliOp::X);
    }
    for i in 13..29 {
        code.set(i, PauliOp::Y);
    }
    for i in 29..61 {
        code.set(i, PauliOp::Z);
    }

    for i in 0..13 {
        assert_eq!(code.pauli(i).unwrap(), PauliOp::X, "{i}");
    }
    for i in 13..29 {
        assert_eq!(code.pauli(i).unwrap(), PauliOp::Y, "{i}");
    }
    for i in 29..61 {
        assert_eq!(code.pauli(i).unwrap(), PauliOp::Z, "{i}");
    }
    for i in 61..64 {
        assert_eq!(code.pauli(i).unwrap(), PauliOp::I, "{i}");
    }
}

#[test]
fn codes_iter_01() {
    let result = Pauli::new((0b01, 0b00)).paulis().into_iter().take(3).collect::<Vec<_>>();

    assert_eq!(result, &[X, I, I]);
}

#[test]
fn codes_iter_02() {
    let result = Pauli::new((0b11_1001, 0b00)).paulis().into_iter().take(5).collect::<Vec<_>>();

    assert_eq!(result, &[X, Y, Z, I, I]);
}

#[test]
fn codes_iter_03() {
    let result = Pauli::new((0b0101_0000, 0b1111_1010)).paulis().into_iter().take(36).collect::<Vec<_>>();

    assert_eq!(
        result,
        &[
            I, I, X, X, I, I, I, I, I, I, I, I, I, I, I, I, I, I, I, I, I, I, I, I, I, I, I, I, I, I, I,
            I, Y, Y, Z, Z
        ]
    );
}

#[test]
fn from_paulis_01() {
    assert_eq!(Pauli::from_paulis(&[I, X, Y, Z]), Pauli::new((0b1110_0100, 0b00)));
}

#[test]
fn from_paulis_02() {
    assert_eq!(
        Pauli::from_paulis(&[
            I, I, X, X, I, I, I, I, I, I, I, I, I, I, I, I, I, I, I, I, I, I, I, I, I, I, I, I, I, I, I,
            I, Y, Y, Z, Z
        ]),
        Pauli::new((0b0101_0000, 0b1111_1010))
    );
}

#[test]
fn from_u128() {
    assert_eq!(Pauli::from(0u128).index(), 0u128);
    assert_eq!(Pauli::from(1u128).index(), 1u128);
    assert_eq!(Pauli::from(11_111_111_111_111_111_u128).index(), 11_111_111_111_111_111_u128);
    assert_eq!(
        Pauli::from(1_234_567_898_765_432_112_345_678_987_654_321_u128).index(),
        1_234_567_898_765_432_112_345_678_987_654_321_u128
    );
    assert_eq!(Pauli::from(u128::MAX).index(), u128::MAX);
}

#[test]
fn pauli_01() {
    assert_eq!(PauliOp::try_from(0u32).unwrap(), PauliOp::I);
    assert_eq!(PauliOp::try_from(1u32).unwrap(), PauliOp::X);
    assert_eq!(PauliOp::try_from(2u32).unwrap(), PauliOp::Y);
    assert_eq!(PauliOp::try_from(3u32).unwrap(), PauliOp::Z);
}

#[test]
fn pauli_03() {
    assert_eq!(u8::from(PauliOp::I), 0);
    assert_eq!(u8::from(PauliOp::X), 1);
    assert_eq!(u8::from(PauliOp::Y), 2);
    assert_eq!(u8::from(PauliOp::Z), 3);
}

#[test]
fn test_pauli_01() {
    assert_eq!(PauliOp::try_from(0u32).unwrap(), PauliOp::I);
    assert_eq!(PauliOp::try_from(1u32).unwrap(), PauliOp::X);
    assert_eq!(PauliOp::try_from(2u32).unwrap(), PauliOp::Y);
    assert_eq!(PauliOp::try_from(3u32).unwrap(), PauliOp::Z);
}

#[test]
fn test_pauli_02() {
    let err = PauliOp::try_from(4u16).unwrap_err();
    assert!(matches!(err, f2q::Error::QubitIndex { .. }));
}

#[test]
fn test_pauli_03() {
    assert_eq!(u8::from(PauliOp::I), 0);
    assert_eq!(u8::from(PauliOp::X), 1);
    assert_eq!(u8::from(PauliOp::Y), 2);
    assert_eq!(u8::from(PauliOp::Z), 3);
}

#[test]
fn pauli_code_to_string() {
    assert_eq!(Pauli::default().to_string(), "I");
    assert_eq!(Pauli::new((1, 0)).to_string(), "X");
    assert_eq!(Pauli::new((2, 0)).to_string(), "Y");
    assert_eq!(Pauli::new((3, 0)).to_string(), "Z");

    assert_eq!(Pauli::new((0, 1)).to_string(), "IIIIIIIIIIIIIIIIIIIIIIIIIIIIIIIIX");
    assert_eq!(Pauli::new((0, 2)).to_string(), "IIIIIIIIIIIIIIIIIIIIIIIIIIIIIIIIY");
    assert_eq!(Pauli::new((0, 3)).to_string(), "IIIIIIIIIIIIIIIIIIIIIIIIIIIIIIIIZ");

    assert_eq!(
        Pauli::new((u64::MAX, u64::MAX)).to_string(),
        "ZZZZZZZZZZZZZZZZZZZZZZZZZZZZZZZZZZZZZZZZZZZZZZZZZZZZZZZZZZZZZZZZ"
    );
}

#[test]
fn pauliop_display() {
    assert_eq!(PauliOp::I.to_string(), "I");
    assert_eq!(PauliOp::X.to_string(), "X");
    assert_eq!(PauliOp::Y.to_string(), "Y");
    assert_eq!(PauliOp::Z.to_string(), "Z");
}

#[test]
fn paulicode_serialize_01() {
    let code = Pauli::default();
    let json = serde_json::to_string(&code.to_string()).unwrap();

    assert_eq!(json, "\"I\"");

    let code = Pauli::from_paulis(&[PauliOp::I, PauliOp::X, PauliOp::Y, PauliOp::Z]);
    let json = serde_json::to_string(&code.to_string()).unwrap();

    assert_eq!(json, "\"IXYZ\"");
}

fn parse_json(data: &str) -> Result<Pauli, f2q::Error> {
    let text: String = serde_json::from_str(data).unwrap();
    Pauli::parse(&text)
}

#[test]
fn paulicode_deserialize_01() {
    let data = r#"
              "I"
     "#;
    let code = parse_json(data).unwrap();
    assert_eq!(code, Pauli::default());

    let data = r#"
              "IXYZ"
     "#;
    let code = parse_json(data).unwrap();
    assert_eq!(code, Pauli::from_paulis(&[PauliOp::I, PauliOp::X, PauliOp::Y, PauliOp::Z]));
}

#[test]
fn deserialize_02() {
    let data = r#"
              ""
     "#;
    let _ = parse_json(data).unwrap_err();

    let data = r#"
              "IP"
     "#;
    let _ = parse_json(data).unwrap_err();

    // this is 65 chars
    let data = r#"
              "XXXXXXXXXXXXXXXXXXXXXXXXXXXXXXXXXXXXXXXXXXXXXXXXXXXXXXXXXXXXXXXXX"
     "#;
    let _ = parse_json(data).unwrap_err();
}

fn check_serde(code: Pauli) {
    let text = code.to_string();
    let result = Pauli::parse(&text).unwrap();
    assert_eq!(result, code);
}

#[test]
fn serde_01() {
    check_serde(Pauli::default());
    check_serde(Pauli::from_paulis(&[I, X, Y, Z]));
    check_serde(Pauli::from_paulis(&[X, X, X]));
    check_serde(Pauli::from_paulis(&[
        I, X, X, X, I, Y, Y, Y, I, X, X, X, I, Y, Y, Y, I, X, X, X, I, Y, Y, Y, I, X, X, X, I, Y, Y, Y,
        I, X, X, X, I, Y, Y, Y, I, X, X, X, I, Y, Y, Y, I, X, X, X, I, Y, Y, Y, I, X, X, X, I, Y, Y, Y,
    ]));
}
