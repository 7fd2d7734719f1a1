use f2q::math::Group;
use f2q::math::ReIm;
use f2q::math::Root4;
use f2q::math::Root4::{R0, R1, R2, R3};

#[test]
fn math_root4_identity() {
    assert_eq!(Root4::identity(), Root4::R0);
}

#[test]
fn math_root4_inverse() {
    assert_eq!(Root4::R0.inverse(), Root4::R0);
    assert_eq!(Root4::R1.inverse(), Root4::R1);
    assert_eq!(Root4::R2.inverse(), Root4::R3);
    assert_eq!(Root4::R3.inverse(), Root4::R2);
}

#[test]
fn math_root4_mul() {
    assert_eq!(R0 * R0, R0);
    assert_eq!(R0 * R1, R1);
    assert_eq!(R0 * R2, R2);
    assert_eq!(R0 * R3, R3);

    assert_eq!(R1 * R0, R1);
    assert_eq!(R1 * R1, R0);
    assert_eq!(R1 * R2, R3);
    assert_eq!(R1 * R3, R2);

    assert_eq!(R2 * R0, R2);
    assert_eq!(R2 * R1, R3);
    assert_eq!(R2 * R2, R1);
    assert_eq!(R2 * R3, R0);

    assert_eq!(R3 * R0, R3);
    assert_eq!(R3 * R1, R2);
    assert_eq!(R3 * R2, R0);
    assert_eq!(R3 * R3, R1);
}

#[test]
fn math_root4_neg() {
    assert_eq!(-Root4::R0, Root4::R1);
    assert_eq!(-Root4::R1, Root4::R0);
    assert_eq!(-Root4::R2, Root4::R3);
    assert_eq!(-Root4::R3, Root4::R2);
}

#[test]
fn math_root4_conj() {
    assert_eq!(Root4::R0.conj(), Root4::R0);
    assert_eq!(Root4::R1.conj(), Root4::R1);
    assert_eq!(Root4::R2.conj(), Root4::R3);
    assert_eq!(Root4::R3.conj(), Root4::R2);
}

#[test]
fn reim_mul() {
    assert_eq!(ReIm::Re(1.0) * ReIm::Re(2.0), ReIm::Re(2.0));
    assert_eq!(ReIm::Re(1.0) * ReIm::Im(2.0), ReIm::Im(2.0));
    assert_eq!(ReIm::Im(1.0) * ReIm::Re(2.0), ReIm::Im(2.0));
    assert_eq!(ReIm::Im(1.0) * ReIm::Im(2.0), ReIm::Re(-2.0));
}
