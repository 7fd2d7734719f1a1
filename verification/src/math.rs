//! Mathematical structures.
use vstd::prelude::*;
use core::ops::{Mul, Neg};
use vstd::std_specs::convert::FromSpec;
use vstd::std_specs::ops::{MulSpec, NegSpec};

verus! {

/// 4th order roots of unity.
#[derive(Copy, Clone, Debug, PartialEq, Eq, Structural)]
pub enum Root4 {
    /// 1
    R0,
    /// -1
    R1,
    /// i
    R2,
    /// -i
    R3,
}

impl Root4 {
    /// The exponent `k` such that the root equals `i^k`.
    pub open spec fn exponent(self) -> int {
        match self {
            Root4::R0 => 0,
            Root4::R2 => 1,
            Root4::R1 => 2,
            Root4::R3 => 3,
        }
    }

    /// The root `i^k` for an exponent `k` taken modulo 4.
    pub open spec fn from_exponent(k: int) -> Root4 {
        let k = k % 4;
        if k == 0 {
            Root4::R0
        } else if k == 1 {
            Root4::R2
        } else if k == 2 {
            Root4::R1
        } else {
            Root4::R3
        }
    }

    /// Product of two roots: exponents add modulo 4.
    pub open spec fn spec_mul(self, rhs: Root4) -> Root4 {
        Root4::from_exponent(self.exponent() + rhs.exponent())
    }

    /// Complex conjugate: the exponent is negated modulo 4.
    pub open spec fn spec_conj(self) -> Root4 {
        Root4::from_exponent(4 - self.exponent())
    }

    /// Negation: multiplication by `-1`.
    pub open spec fn spec_neg(self) -> Root4 {
        Root4::from_exponent(self.exponent() + 2)
    }

    /// Identity.
    pub fn one() -> (r: Self)
        ensures
            r == Root4::R0,
            r.exponent() == 0,
    {
        Root4::R0
    }

    /// Complex number: `i`.
    pub fn i() -> (r: Self)
        ensures
            r == Root4::R2,
            r.exponent() == 1,
    {
        Root4::R2
    }

    /// Complex conjugation.
    pub fn conj(self) -> (r: Self)
        ensures
            r == self.spec_conj(),
    {
        match self {
            Root4::R0 => Root4::R0,
            Root4::R1 => Root4::R1,
            Root4::R2 => Root4::R3,
            Root4::R3 => Root4::R2,
        }
    }
}

impl Default for Root4 {
    fn default() -> (r: Self)
        ensures
            r == Root4::R0,
    {
        Root4::R0
    }
}

impl core::ops::Mul for Root4 {
    type Output = Self;

    fn mul(self, rhs: Self) -> (r: Self::Output) {
        match self {
            Root4::R0 => rhs,
            Root4::R1 => match rhs {
                Root4::R0 => Root4::R1,
                Root4::R1 => Root4::R0,
                Root4::R2 => Root4::R3,
                Root4::R3 => Root4::R2,
            },
            Root4::R2 => match rhs {
                Root4::R0 => Root4::R2,
                Root4::R1 => Root4::R3,
                Root4::R2 => Root4::R1,
                Root4::R3 => Root4::R0,
            },
            Root4::R3 => match rhs {
                Root4::R0 => Root4::R3,
                Root4::R1 => Root4::R2,
                Root4::R2 => Root4::R0,
                Root4::R3 => Root4::R1,
            },
        }
    }
}

impl vstd::std_specs::ops::MulSpecImpl for Root4 {
    open spec fn obeys_mul_spec() -> bool {
        true
    }

    open spec fn mul_req(self, rhs: Root4) -> bool {
        true
    }

    open spec fn mul_spec(self, rhs: Root4) -> Root4 {
        self.spec_mul(rhs)
    }
}

impl core::ops::Neg for Root4 {
    type Output = Self;

    fn neg(self) -> (r: Self::Output) {
        match self {
            Root4::R0 => Root4::R1,
            Root4::R1 => Root4::R0,
            Root4::R2 => Root4::R3,
            Root4::R3 => Root4::R2,
        }
    }
}

impl vstd::std_specs::ops::NegSpecImpl for Root4 {
    open spec fn obeys_neg_spec() -> bool {
        true
    }

    open spec fn neg_req(self) -> bool {
        true
    }

    open spec fn neg_spec(self) -> Root4 {
        self.spec_neg()
    }
}

/// Group structure.
pub trait Group: core::ops::Mul<Output = Self> + Sized {
    /// The neutral element.
    spec fn spec_identity() -> Self;

    /// The inverse of an element.
    spec fn spec_inverse(self) -> Self;

    /// The group product.
    spec fn spec_product(self, rhs: Self) -> Self;

    fn identity() -> (r: Self)
        ensures
            r == Self::spec_identity(),
    ;

    fn inverse(self) -> (r: Self)
        ensures
            r == self.spec_inverse(),
    ;

    /// The identity is neutral on both sides.
    proof fn lemma_identity(a: Self)
        ensures
            Self::spec_identity().spec_product(a) == a,
            a.spec_product(Self::spec_identity()) == a,
    ;

    /// Every element has a two-sided inverse.
    proof fn lemma_inverse(a: Self)
        ensures
            a.spec_inverse().spec_product(a) == Self::spec_identity(),
            a.spec_product(a.spec_inverse()) == Self::spec_identity(),
    ;

    /// The product is associative.
    proof fn lemma_associative(a: Self, b: Self, c: Self)
        ensures
            a.spec_product(b).spec_product(c) == a.spec_product(b.spec_product(c)),
    ;
}

impl Group for Root4 {
    open spec fn spec_identity() -> Self {
        Root4::R0
    }

    open spec fn spec_inverse(self) -> Self {
        self.spec_conj()
    }

    open spec fn spec_product(self, rhs: Self) -> Self {
        self.spec_mul(rhs)
    }

    fn identity() -> (r: Self) {
        Root4::R0
    }

    fn inverse(self) -> (r: Self) {
        match self {
            Root4::R0 => Root4::R0,
            Root4::R1 => Root4::R1,
            Root4::R2 => Root4::R3,
            Root4::R3 => Root4::R2,
        }
    }

    proof fn lemma_identity(a: Self) {
    }

    proof fn lemma_inverse(a: Self) {
    }

    proof fn lemma_associative(a: Self, b: Self, c: Self) {
    }
}


/// A complex number that can only be either real or imaginary.
#[derive(Debug, Clone, Copy, PartialEq)]
pub enum ReIm<T> {
    Zero,
    Re(T),
    Im(T),
}

/// The arithmetic of `T` that the product of `ReIm<T>` relies on is total.
pub open spec fn reim_ops_total<T: core::ops::Mul<Output = T> + core::ops::Neg<Output = T>>() -> bool {
    &&& forall|a: T, b: T| #[trigger] a.mul_req(b)
    &&& forall|a: T| #[trigger] a.neg_req()
}

/// `z` is `(-x) * y` in the arithmetic of `T`.
pub open spec fn neg_mul<T: core::ops::Mul<Output = T> + core::ops::Neg<Output = T>>(x: T, y: T, z: T) -> bool {
    exists|n: T| call_ensures(T::neg, (x,), n) && #[trigger] call_ensures(T::mul, (n, y), z)
}

impl<T: core::ops::Mul<Output = T> + core::ops::Neg<Output = T>> ReIm<T> {
    /// Product of real/imaginary numbers in terms of the arithmetic of `T`:
    /// `i * i = -1`.
    pub open spec fn spec_reim_mul(self, rhs: Self) -> Self {
        match (self, rhs) {
            (ReIm::Re(x), ReIm::Re(y)) => ReIm::Re(x.mul_spec(y)),
            (ReIm::Re(x), ReIm::Im(y)) => ReIm::Im(x.mul_spec(y)),
            (ReIm::Im(x), ReIm::Re(y)) => ReIm::Im(x.mul_spec(y)),
            (ReIm::Im(x), ReIm::Im(y)) => ReIm::Re(x.neg_spec().mul_spec(y)),
            _ => ReIm::Zero,
        }
    }
}

impl<T: core::ops::Mul<Output = T> + core::ops::Neg<Output = T>> core::ops::Mul for ReIm<T> {
    type Output = Self;

    fn mul(self, rhs: Self) -> (r: Self::Output)
        ensures
            (r is Zero) <==> (self is Zero || rhs is Zero),
            (r is Re) <==> ((self is Re && rhs is Re) || (self is Im && rhs is Im)),
            (r is Im) <==> ((self is Re && rhs is Im) || (self is Im && rhs is Re)),
            self matches ReIm::Re(x) ==> (rhs matches ReIm::Re(y) ==> (r matches ReIm::Re(z) && call_ensures(T::mul, (x, y), z))),
            self matches ReIm::Re(x) ==> (rhs matches ReIm::Im(y) ==> (r matches ReIm::Im(z) && call_ensures(T::mul, (x, y), z))),
            self matches ReIm::Im(x) ==> (rhs matches ReIm::Re(y) ==> (r matches ReIm::Im(z) && call_ensures(T::mul, (x, y), z))),
            self matches ReIm::Im(x) ==> (rhs matches ReIm::Im(y) ==> (r matches ReIm::Re(z) && neg_mul(x, y, z))),
    {
        match self {
            ReIm::Zero => ReIm::Zero,
            ReIm::Re(x) => match rhs {
                ReIm::Zero => ReIm::Zero,
                ReIm::Re(y) => ReIm::Re(x.mul(y)),
                ReIm::Im(y) => ReIm::Im(x.mul(y)),
            },
            ReIm::Im(x) => match rhs {
                ReIm::Zero => ReIm::Zero,
                ReIm::Re(y) => ReIm::Im(x.mul(y)),
                ReIm::Im(y) => {
                    let n = x.neg();
                    let z = n.mul(y);
                    assert(neg_mul(x, y, z));
                    ReIm::Re(z)
                },
            },
        }
    }
}

impl<T: core::ops::Mul<Output = T> + core::ops::Neg<Output = T>> vstd::std_specs::ops::MulSpecImpl for ReIm<T> {
    open spec fn obeys_mul_spec() -> bool {
        T::obeys_mul_spec() && T::obeys_neg_spec()
    }

    open spec fn mul_req(self, rhs: ReIm<T>) -> bool {
        reim_ops_total::<T>()
    }

    open spec fn mul_spec(self, rhs: ReIm<T>) -> ReIm<T> {
        self.spec_reim_mul(rhs)
    }
}

impl<T: From<i8>> ReIm<T> {
    /// The root of unity as a real or imaginary number of `T`.
    pub open spec fn spec_from_root(value: Root4) -> Self {
        match value {
            Root4::R0 => ReIm::Re(T::from_spec(1i8)),
            Root4::R1 => ReIm::Re(T::from_spec(-1i8)),
            Root4::R2 => ReIm::Im(T::from_spec(1i8)),
            Root4::R3 => ReIm::Im(T::from_spec(-1i8)),
        }
    }
}

impl<T: From<i8>> From<Root4> for ReIm<T> {
    fn from(value: Root4) -> (r: Self)
        ensures
            (r is Re) <==> (value == Root4::R0 || value == Root4::R1),
            (r is Im) <==> (value == Root4::R2 || value == Root4::R3),
            value == Root4::R0 ==> (r matches ReIm::Re(x) && call_ensures(T::from, (1i8,), x)),
            value == Root4::R1 ==> (r matches ReIm::Re(x) && call_ensures(T::from, (-1i8,), x)),
            value == Root4::R2 ==> (r matches ReIm::Im(x) && call_ensures(T::from, (1i8,), x)),
            value == Root4::R3 ==> (r matches ReIm::Im(x) && call_ensures(T::from, (-1i8,), x)),
    {
        match value {
            Root4::R0 => ReIm::Re(T::from(1i8)),
            Root4::R1 => ReIm::Re(T::from(-1i8)),
            Root4::R2 => ReIm::Im(T::from(1i8)),
            Root4::R3 => ReIm::Im(T::from(-1i8)),
        }
    }
}

impl<T: From<i8>> vstd::std_specs::convert::FromSpecImpl<Root4> for ReIm<T> {
    open spec fn obeys_from_spec() -> bool {
        T::obeys_from_spec()
    }

    open spec fn from_spec(v: Root4) -> Self {
        Self::spec_from_root(v)
    }
}

/// Products of roots of unity add exponents modulo 4.
pub proof fn lemma_root4_mul_exponent(a: Root4, b: Root4)
    ensures
        a.spec_mul(b).exponent() == (a.exponent() + b.exponent()) % 4,
        0 <= a.exponent() < 4,
{
}

/// Roots of unity are determined by their exponent.
pub proof fn lemma_root4_exponent_injective(a: Root4, b: Root4)
    requires
        a.exponent() == b.exponent(),
    ensures
        a == b,
{
}

/// The product of roots of unity is associative.
pub proof fn lemma_root4_associative(a: Root4, b: Root4, c: Root4)
    ensures
        a.spec_mul(b).spec_mul(c) == a.spec_mul(b.spec_mul(c)),
{
}

/// `(p * x) * (q * y) == (p * q) * (x * y)`.
pub proof fn lemma_root4_interchange(p: Root4, q: Root4, x: Root4, y: Root4)
    ensures
        p.spec_mul(x).spec_mul(q.spec_mul(y)) == p.spec_mul(q).spec_mul(x.spec_mul(y)),
{
    lemma_root4_associative(p, x, q.spec_mul(y));
    lemma_root4_associative(x, q, y);
    lemma_root4_commutative(x, q);
    lemma_root4_associative(q, x, y);
    lemma_root4_associative(p, q, x.spec_mul(y));
}

/// Two pairs of equal products can be regrouped.
pub proof fn lemma_root4_regroup(p: Root4, q: Root4, x: Root4, y: Root4, r: Root4, s: Root4, u: Root4, v: Root4)
    requires
        p.spec_mul(q) == r.spec_mul(s),
        x.spec_mul(y) == u.spec_mul(v),
    ensures
        p.spec_mul(x).spec_mul(q.spec_mul(y)) == r.spec_mul(u).spec_mul(s.spec_mul(v)),
{
    lemma_root4_interchange(p, q, x, y);
    lemma_root4_interchange(r, s, u, v);
}

/// Regrouping of the phases of a triple product.
pub proof fn lemma_root4_triple(a: Root4, b: Root4, c: Root4, x: Root4, y: Root4, u: Root4, v: Root4)
    requires
        x.spec_mul(y) == u.spec_mul(v),
    ensures
        a.spec_mul(b).spec_mul(x).spec_mul(c).spec_mul(y)
            == a.spec_mul(b.spec_mul(c).spec_mul(u)).spec_mul(v),
{
    let ab = a.spec_mul(b);
    lemma_root4_associative(ab, x, c);
    lemma_root4_commutative(x, c);
    lemma_root4_associative(ab, c, x);
    lemma_root4_associative(ab.spec_mul(c), x, y);
    lemma_root4_associative(a, b.spec_mul(c), u);
    lemma_root4_associative(a.spec_mul(b.spec_mul(c)), u, v);
    lemma_root4_associative(a, b, c);
}

/// The product of roots of unity is commutative.
pub proof fn lemma_root4_commutative(a: Root4, b: Root4)
    ensures
        a.spec_mul(b) == b.spec_mul(a),
{
}

/// Complex conjugation is an involution, respects products and inverts.
pub proof fn lemma_root4_conj(a: Root4, b: Root4)
    ensures
        a.spec_conj().spec_conj() == a,
        a.spec_mul(b).spec_conj() == a.spec_conj().spec_mul(b.spec_conj()),
        a.spec_mul(a.spec_conj()) == Root4::R0,
{
}

/// Negation is multiplication by `-1`, and `i * i == -1`.
pub proof fn lemma_root4_neg(a: Root4)
    ensures
        a.spec_neg() == Root4::R1.spec_mul(a),
        a.spec_neg().spec_neg() == a,
        Root4::R2.spec_mul(Root4::R2) == Root4::R1,
{
}

} // verus!
