//! Jordan-Wigner mapping of fermionic terms to Pauli strings.
use vstd::prelude::*;
use vstd::string::*;
use crate::Error;
use crate::code::fermions::{An, Cr, Fermions, Orbital};
use crate::code::qubits::{Pauli, PauliOp, string_ops, string_phase, site_product, lemma_site_product, lemma_string_phase_identity};
use crate::math::Root4;
use crate::terms::{SumRepr, Target, Terms, add_each, adds_all, is_listing};
use crate::code::Code;
use vstd::std_specs::ops::{DivSpec, NegSpec};
use core::ops::{Div, Neg};

verus! {

/// A creation or annihilation operator on one of the orbitals `0..64`.
#[derive(Clone, Copy, Debug, PartialEq, Eq, Structural)]
pub enum LadderOp {
    An(Orbital),
    Cr(Orbital),
}

/// A term of an operator product: a phase and the Pauli operators of 64
/// qubits. Every factor of the product contributes a weight of 1/2, which is
/// the same for all terms and is left out.
pub type PhasedOps = (Root4, Seq<PauliOp>);

/// The identity string.
pub open spec fn identity_ops() -> Seq<PauliOp> {
    Seq::new(64, |i: int| PauliOp::I)
}

/// The string `Z ... Z P I ... I` with `P` at qubit `index`.
pub open spec fn jw_string(index: int, p: PauliOp) -> Seq<PauliOp> {
    Seq::new(64, |i: int| if i < index { PauliOp::Z } else if i == index { p } else { PauliOp::I })
}

impl LadderOp {
    /// The orbital of the operator.
    pub open spec fn orbital(self) -> Orbital {
        match self {
            LadderOp::An(o) => o,
            LadderOp::Cr(o) => o,
        }
    }

    /// The qubit index of the operator.
    pub open spec fn spec_index(self) -> int {
        self.orbital().spec_index()
    }

    /// The operator acts on one of the qubits `0..64`.
    pub open spec fn wf(self) -> bool {
        self.orbital().n < 32
    }

    /// The two terms of the operator: `(X - iY)/2` for creation and
    /// `(X + iY)/2` for annihilation, with the string of Z operators below
    /// the qubit of the operator.
    pub open spec fn spec_terms(self) -> Seq<PhasedOps> {
        seq![
            (Root4::R0, jw_string(self.spec_index(), PauliOp::X)),
            (
                match self {
                    LadderOp::An(_) => Root4::R2,
                    LadderOp::Cr(_) => Root4::R3,
                },
                jw_string(self.spec_index(), PauliOp::Y),
            ),
        ]
    }

    /// The qubit index of the operator.
    pub fn index(&self) -> (r: u16)
        requires
            self.wf(),
        ensures
            r == self.spec_index(),
            r < 64,
    {
        let o = match self {
            LadderOp::An(o) => o,
            LadderOp::Cr(o) => o,
        };
        let s: u16 = match o.s {
            crate::code::fermions::Spin::Down => 0,
            crate::code::fermions::Spin::Up => 1,
        };
        (o.n as u16) * 2 + s
    }
}

impl TryFrom<An> for LadderOp {
    type Error = Error;

    /// The operator, if its orbital index is within `0..64`.
    fn try_from(value: An) -> (r: Result<Self, Self::Error>)
        ensures
            value.0.n < 32 ==> r == Ok::<LadderOp, Error>(LadderOp::An(value.0)),
            value.0.n >= 32 ==> is_qubit_index_error(r),
    {
        if value.0.n < 32 {
            Ok(LadderOp::An(value.0))
        } else {
            Err(Error::QubitIndex { msg: String::from_str("orbital index must be within 0..=63") })
        }
    }
}

impl vstd::std_specs::convert::TryFromSpecImpl<An> for LadderOp {
    open spec fn obeys_try_from_spec() -> bool {
        false
    }

    open spec fn try_from_spec(v: An) -> Result<Self, Error> {
        Ok(LadderOp::An(v.0))
    }
}

impl TryFrom<Cr> for LadderOp {
    type Error = Error;

    /// The operator, if its orbital index is within `0..64`.
    fn try_from(value: Cr) -> (r: Result<Self, Self::Error>)
        ensures
            value.0.n < 32 ==> r == Ok::<LadderOp, Error>(LadderOp::Cr(value.0)),
            value.0.n >= 32 ==> is_qubit_index_error(r),
    {
        if value.0.n < 32 {
            Ok(LadderOp::Cr(value.0))
        } else {
            Err(Error::QubitIndex { msg: String::from_str("orbital index must be within 0..=63") })
        }
    }
}

impl vstd::std_specs::convert::TryFromSpecImpl<Cr> for LadderOp {
    open spec fn obeys_try_from_spec() -> bool {
        false
    }

    open spec fn try_from_spec(v: Cr) -> Result<Self, Error> {
        Ok(LadderOp::Cr(v.0))
    }
}

/// The text of the error for an orbital outside the qubits `0..64`.
pub open spec fn qubit_range_message() -> Seq<char> {
    "orbital index must be within 0..=63"@
}

/// `r` is the error for an orbital outside the qubits `0..64`.
pub open spec fn is_qubit_index_error<V>(r: Result<V, Error>) -> bool {
    r matches Err(Error::QubitIndex { msg }) && msg@ == qubit_range_message()
}

/// The two Pauli strings of the operator at qubit `index`: `Z...Z X` and `Z...Z Y`.
pub fn pauli_codes_from_index(index: u16) -> (r: (Pauli, Pauli))
    requires
        index < 64,
    ensures
        r.0@ == jw_string(index as int, PauliOp::X),
        r.1@ == jw_string(index as int, PauliOp::Y),
{
    let code = Pauli::parity_op(index);
    let mut x = code;
    x.set(index, PauliOp::X);
    let mut y = code;
    y.set(index, PauliOp::Y);
    assert(x@ =~= jw_string(index as int, PauliOp::X));
    assert(y@ =~= jw_string(index as int, PauliOp::Y));
    (x, y)
}

/// The product of two terms: phases multiply with the phase of the product of
/// the strings.
pub open spec fn term_product(l: PhasedOps, r: PhasedOps) -> PhasedOps {
    (l.0.spec_mul(r.0).spec_mul(string_phase(l.1, r.1, 64)), string_ops(l.1, r.1))
}

/// The terms of the product of an operator with a sum of terms: for each term
/// on the right, its product with the two terms of the operator.
pub open spec fn mul_terms(op: LadderOp, rhs: Seq<PhasedOps>) -> Seq<PhasedOps>
    decreases rhs.len(),
{
    if rhs.len() == 0 {
        seq![]
    } else {
        mul_terms(op, rhs.drop_last()) + seq![
            term_product(op.spec_terms()[0], rhs.last()),
            term_product(op.spec_terms()[1], rhs.last()),
        ]
    }
}

/// The terms of the product of a sequence of operators, the first operator
/// leftmost.
pub open spec fn expand(ops: Seq<LadderOp>) -> Seq<PhasedOps>
    decreases ops.len(),
{
    if ops.len() == 0 {
        seq![(Root4::R0, identity_ops())]
    } else {
        mul_terms(ops[0], expand(ops.drop_first()))
    }
}

/// A term with a real phase, `1` or `-1`.
pub open spec fn is_real(t: PhasedOps) -> bool {
    t.0 == Root4::R0 || t.0 == Root4::R1
}

/// The terms with a real phase, in their order. Adding the Hermitian
/// conjugate of a product doubles these terms and cancels the others.
pub open spec fn real_terms(terms: Seq<PhasedOps>) -> Seq<PhasedOps>
    decreases terms.len(),
{
    if terms.len() == 0 {
        seq![]
    } else {
        real_terms(terms.drop_last()) + if is_real(terms.last()) { seq![terms.last()] } else { seq![] }
    }
}

/// The view of a list of terms.
pub open spec fn terms_view(v: Seq<(Root4, Pauli)>) -> Seq<PhasedOps> {
    v.map_values(|t: (Root4, Pauli)| (t.0, t.1@))
}

/// Product of two terms.
fn mul_term(l: (Root4, Pauli), r: (Root4, Pauli)) -> (p: (Root4, Pauli))
    ensures
        (p.0, p.1@) == term_product((l.0, l.1@), (r.0, r.1@)),
{
    let (root, prod) = l.1 * r.1;
    (l.0 * r.0 * root, prod)
}

impl LadderOp {
    /// The two terms of the operator.
    pub fn terms(&self) -> (r: ((Root4, Pauli), (Root4, Pauli)))
        requires
            self.wf(),
        ensures
            (r.0.0, r.0.1@) == self.spec_terms()[0],
            (r.1.0, r.1.1@) == self.spec_terms()[1],
    {
        let (x, y) = pauli_codes_from_index(self.index());
        let phase_y = match self {
            LadderOp::An(_) => Root4::R2,
            LadderOp::Cr(_) => Root4::R3,
        };
        ((Root4::R0, x), (phase_y, y))
    }

    /// Multiply the operator with a sum of terms, from the left.
    pub fn mul_terms(&self, rhs: &Vec<(Root4, Pauli)>) -> (r: Vec<(Root4, Pauli)>)
        requires
            self.wf(),
        ensures
            terms_view(r@) == mul_terms(*self, terms_view(rhs@)),
    {
        let (term_x, term_y) = self.terms();
        let mut out: Vec<(Root4, Pauli)> = Vec::new();
        let mut i: usize = 0;
        while i < rhs.len()
            invariant
                0 <= i <= rhs@.len(),
                (term_x.0, term_x.1@) == self.spec_terms()[0],
                (term_y.0, term_y.1@) == self.spec_terms()[1],
                terms_view(out@) == mul_terms(*self, terms_view(rhs@.subrange(0, i as int))),
            decreases rhs@.len() - i,
        {
            let t = rhs[i];
            out.push(mul_term(term_x, t));
            out.push(mul_term(term_y, t));
            proof {
                let prefix = terms_view(rhs@.subrange(0, i + 1));
                assert(prefix.drop_last() =~= terms_view(rhs@.subrange(0, i as int)));
                assert(prefix.last() == (t.0, t.1@));
                assert(terms_view(out@) =~= mul_terms(*self, prefix));
            }
            i = i + 1;
        }
        assert(rhs@.subrange(0, rhs@.len() as int) =~= rhs@);
        out
    }
}

/// The terms of the product of a sequence of operators, the first operator
/// leftmost.
pub fn expand_product(ops: &[LadderOp]) -> (r: Vec<(Root4, Pauli)>)
    requires
        forall|i: int| 0 <= i < ops@.len() ==> (#[trigger] ops@[i]).wf(),
    ensures
        terms_view(r@) == expand(ops@),
{
    let mut terms: Vec<(Root4, Pauli)> = Vec::new();
    terms.push((Root4::R0, Pauli::identity()));
    let mut j: usize = ops.len();
    proof {
        assert(ops@.subrange(j as int, ops@.len() as int) =~= seq![]);
        assert(terms_view(terms@) =~= expand(seq![]));
    }
    while j > 0
        invariant
            0 <= j <= ops@.len(),
            forall|i: int| 0 <= i < ops@.len() ==> (#[trigger] ops@[i]).wf(),
            terms_view(terms@) == expand(ops@.subrange(j as int, ops@.len() as int)),
        decreases j,
    {
        let next = ops[j - 1].mul_terms(&terms);
        proof {
            let tail = ops@.subrange(j - 1, ops@.len() as int);
            assert(tail.drop_first() =~= ops@.subrange(j as int, ops@.len() as int));
            assert(tail[0] == ops@[j - 1]);
        }
        terms = next;
        j = j - 1;
    }
    assert(ops@.subrange(0, ops@.len() as int) =~= ops@);
    terms
}

/// Keep the terms with a real phase.
pub fn keep_real(terms: &Vec<(Root4, Pauli)>) -> (r: Vec<(Root4, Pauli)>)
    ensures
        terms_view(r@) == real_terms(terms_view(terms@)),
{
    let mut out: Vec<(Root4, Pauli)> = Vec::new();
    let mut i: usize = 0;
    while i < terms.len()
        invariant
            0 <= i <= terms@.len(),
            terms_view(out@) == real_terms(terms_view(terms@.subrange(0, i as int))),
        decreases terms@.len() - i,
    {
        let t = terms[i];
        let keep = match t.0 {
            Root4::R0 => true,
            Root4::R1 => true,
            _ => false,
        };
        if keep {
            out.push(t);
        }
        proof {
            let prefix = terms_view(terms@.subrange(0, i + 1));
            assert(prefix.drop_last() =~= terms_view(terms@.subrange(0, i as int)));
            assert(prefix.last() == (t.0, t.1@));
            assert(terms_view(out@) =~= real_terms(prefix));
        }
        i = i + 1;
    }
    assert(terms@.subrange(0, terms@.len() as int) =~= terms@);
    out
}

/// The ladder operators of a fermionic term, in the order of the product:
/// creation operators first.
pub open spec fn ladder_ops(code: Fermions) -> Seq<LadderOp> {
    match code {
        Fermions::Offset => seq![],
        Fermions::One { cr, an } => seq![LadderOp::Cr(cr.0), LadderOp::An(an.0)],
        Fermions::Two { cr, an } => seq![
            LadderOp::Cr(cr.0.0),
            LadderOp::Cr(cr.1.0),
            LadderOp::An(an.0.0),
            LadderOp::An(an.1.0),
        ],
    }
}

/// All orbitals of the term are mapped to one of the qubits `0..64`.
pub open spec fn in_qubit_range(code: Fermions) -> bool {
    forall|i: int| 0 <= i < ladder_ops(code).len() ==> (#[trigger] ladder_ops(code)[i]).wf()
}

/// The Pauli terms of the Jordan-Wigner image of a fermionic term, each with
/// the sign of its weight.
pub open spec fn spec_jw_terms(code: Fermions) -> Seq<PhasedOps> {
    real_terms(expand(ladder_ops(code)))
}

/// The weight of each Pauli term of the image of a fermionic term with
/// coefficient 1 is `±1/d` for this denominator `d`: the product of the
/// operators has a weight of `1/2` per factor, and adding the Hermitian
/// conjugate doubles it (but not for the offset).
pub open spec fn jw_denominator(code: Fermions) -> int {
    match code {
        Fermions::Offset => 1,
        Fermions::One { .. } => 2,
        Fermions::Two { .. } => 8,
    }
}

/// The Pauli strings of the Jordan-Wigner image of a fermionic term, with the
/// signs of their weights (`R0` for `+`, `R1` for `-`). An error if an orbital
/// index is not within `0..64`.
pub fn jw_terms(code: &Fermions) -> (r: Result<Vec<(Root4, Pauli)>, Error>)
    ensures
        r is Ok <==> in_qubit_range(*code),
        r matches Ok(v) ==> terms_view(v@) == spec_jw_terms(*code),
        r is Err ==> is_qubit_index_error(r),
{
    let mut ops: Vec<LadderOp> = Vec::new();
    match code {
        Fermions::Offset => {},
        Fermions::One { cr, an } => {
            let op_cr = LadderOp::try_from(*cr);
            let op_an = LadderOp::try_from(*an);
            match (op_cr, op_an) {
                (Ok(a), Ok(b)) => {
                    ops.push(a);
                    ops.push(b);
                },
                (Err(e), _) => {
                    assert(!ladder_ops(*code)[0].wf());
                    return Err(e);
                },
                (_, Err(e)) => {
                    assert(!ladder_ops(*code)[1].wf());
                    return Err(e);
                },
            }
        },
        Fermions::Two { cr, an } => {
            let op0 = LadderOp::try_from(cr.0);
            let op1 = LadderOp::try_from(cr.1);
            let op2 = LadderOp::try_from(an.0);
            let op3 = LadderOp::try_from(an.1);
            match (op0, op1, op2, op3) {
                (Ok(a), Ok(b), Ok(c), Ok(d)) => {
                    ops.push(a);
                    ops.push(b);
                    ops.push(c);
                    ops.push(d);
                },
                (Err(e), _, _, _) => {
                    assert(!ladder_ops(*code)[0].wf());
                    return Err(e);
                },
                (_, Err(e), _, _) => {
                    assert(!ladder_ops(*code)[1].wf());
                    return Err(e);
                },
                (_, _, Err(e), _) => {
                    assert(!ladder_ops(*code)[2].wf());
                    return Err(e);
                },
                (_, _, _, Err(e)) => {
                    assert(!ladder_ops(*code)[3].wf());
                    return Err(e);
                },
            }
        },
    }
    assert(ops@ =~= ladder_ops(*code));
    let terms = expand_product(ops.as_slice());
    Ok(keep_real(&terms))
}

/// Division and negation of `T` are defined for all operands.
pub open spec fn div_neg_total<T: core::ops::Div<Output = T> + core::ops::Neg<Output = T>>() -> bool {
    &&& forall|a: T, b: T| #[trigger] a.div_req(b)
    &&& forall|a: T| #[trigger] a.neg_req()
}

/// `r` is `coeff / denom`, negated if `negative`, in the arithmetic of `T`.
pub open spec fn scaled<T: From<u8> + core::ops::Div<Output = T> + core::ops::Neg<Output = T>>(
    coeff: T,
    denom: u8,
    negative: bool,
    r: T,
) -> bool {
    exists|d: T, q: T|
        call_ensures(T::from, (denom,), d) && #[trigger] call_ensures(T::div, (coeff, d), q) && if negative {
            call_ensures(T::neg, (q,), r)
        } else {
            r == q
        }
}

/// The coefficient of one Pauli term of the image of `code` with coefficient
/// `coeff`: `coeff` itself for the offset, else `±coeff / d`, with the sign of
/// the phase.
pub open spec fn jw_coeff<T: From<u8> + core::ops::Div<Output = T> + core::ops::Neg<Output = T>>(
    coeff: T,
    code: Fermions,
    phase: Root4,
    r: T,
) -> bool {
    if code is Offset {
        r == coeff
    } else {
        scaled(coeff, jw_denominator(code) as u8, phase == Root4::R1, r)
    }
}

/// `out` is the image of the single fermionic term `(coeff, code)`.
pub open spec fn jw_term_image<T: From<u8> + core::ops::Div<Output = T> + core::ops::Neg<Output = T>>(
    coeff: T,
    code: Fermions,
    out: Seq<(T, Pauli)>,
) -> bool {
    &&& out.len() == spec_jw_terms(code).len()
    &&& forall|i: int| 0 <= i < out.len() ==> (#[trigger] out[i]).1@ == spec_jw_terms(code)[i].1
        && jw_coeff(coeff, code, spec_jw_terms(code)[i].0, out[i].0)
}

/// `out` is the image of the fermionic terms `input`, term after term.
pub open spec fn jw_image<T: From<u8> + core::ops::Div<Output = T> + core::ops::Neg<Output = T>>(
    input: Seq<(T, Fermions)>,
    out: Seq<(T, Pauli)>,
) -> bool
    decreases input.len(),
{
    if input.len() == 0 {
        out.len() == 0
    } else {
        let n = out.len() - spec_jw_terms(input.last().1).len();
        &&& n >= 0
        &&& jw_image(input.drop_last(), out.subrange(0, n))
        &&& jw_term_image(input.last().0, input.last().1, out.subrange(n, out.len() as int))
    }
}

/// The image of one fermionic term from its Pauli terms with signs.
fn term_image<T: Copy + From<u8> + core::ops::Div<Output = T> + core::ops::Neg<Output = T>>(
    coeff: T,
    code: &Fermions,
    terms: &Vec<(Root4, Pauli)>,
    denom: u8,
) -> (r: Vec<(T, Pauli)>)
    requires
        div_neg_total::<T>(),
        terms_view(terms@) == spec_jw_terms(*code),
        denom == jw_denominator(*code),
    ensures
        jw_term_image(coeff, *code, r@),
{
    let mut out: Vec<(T, Pauli)> = Vec::new();
    let mut k: usize = 0;
    while k < terms.len()
        invariant
            div_neg_total::<T>(),
            0 <= k <= terms@.len(),
            terms_view(terms@) == spec_jw_terms(*code),
            denom == jw_denominator(*code),
            out@.len() == k,
            forall|j: int| 0 <= j < k ==> (#[trigger] out@[j]).1@ == spec_jw_terms(*code)[j].1
                && jw_coeff(coeff, *code, spec_jw_terms(*code)[j].0, out@[j].0),
        decreases terms@.len() - k,
    {
        let (phase, pauli) = terms[k];
        assert(terms_view(terms@)[k as int] == (phase, pauli@));
        let v = match code {
            Fermions::Offset => coeff,
            _ => {
                let negative = match phase {
                    Root4::R1 => true,
                    _ => false,
                };
                scale(coeff, denom, negative)
            },
        };
        out.push((v, pauli));
        k = k + 1;
    }
    out
}

/// `out` is the image of the fermionic sum `m`, taken term after term in some
/// order in which the sum lists its terms.
pub open spec fn is_sum_image<T: From<u8> + core::ops::Div<Output = T> + core::ops::Neg<Output = T>>(
    m: Map<Fermions, T>,
    out: Seq<(T, Pauli)>,
) -> bool {
    exists|input: Seq<(T, Fermions)>| is_listing(input, m) && #[trigger] jw_image(input, out)
}

fn scale<T: Copy + From<u8> + core::ops::Div<Output = T> + core::ops::Neg<Output = T>>(
    coeff: T,
    denom: u8,
    negative: bool,
) -> (r: T)
    requires
        div_neg_total::<T>(),
    ensures
        scaled(coeff, denom, negative, r),
{
    let d = T::from(denom);
    let q = coeff.div(d);
    if negative {
        q.neg()
    } else {
        q
    }
}

/// Jordan-Wigner mapping.
///
/// This mapping is initialized with a sum of fermionic terms, and adds the
/// Pauli strings of its image to a sum of Pauli strings.
pub struct JordanWigner<'a, T> {
    repr: &'a SumRepr<T, Fermions>,
}

impl<'a, T> JordanWigner<'a, T> {
    /// The fermionic sum that is mapped.
    pub closed spec fn source(&self) -> &'a SumRepr<T, Fermions> {
        self.repr
    }

    pub fn new(repr: &'a SumRepr<T, Fermions>) -> (r: Self)
        ensures
            r.source() == repr,
    {
        JordanWigner { repr }
    }
}

impl<'a, T: Copy + Default + From<u8> + core::ops::Add<Output = T> + core::ops::Div<Output = T> + core::ops::Neg<Output = T>> JordanWigner<'a, T> {
    /// The Pauli terms of the image of the fermionic sum, term after term in
    /// the order in which the sum lists its terms. An error if an orbital
    /// index of some term is not within `0..64`.
    pub fn image(&self) -> (r: Result<Vec<(T, Pauli)>, Error>)
        requires
            div_neg_total::<T>(),
        ensures
            r is Ok <==> forall|c: Fermions| self.source()@.contains_key(c) ==> in_qubit_range(c),
            r matches Ok(v) ==> is_sum_image(self.source()@, v@),
            r is Err ==> is_qubit_index_error(r),
    {
        let items = self.repr.iter();
        let mut out: Vec<(T, Pauli)> = Vec::new();
        let mut i: usize = 0;
        while i < items.len()
            invariant
                div_neg_total::<T>(),
                is_listing(items@, self.repr@),
                0 <= i <= items@.len(),
                jw_image(items@.subrange(0, i as int), out@),
                forall|j: int| 0 <= j < i ==> in_qubit_range(#[trigger] items@[j].1),
            decreases items@.len() - i,
        {
            let (coeff, code) = items[i];
            let terms = match jw_terms(&code) {
                Ok(t) => t,
                Err(e) => {
                    return Err(e);
                },
            };
            let denom: u8 = match code {
                Fermions::Offset => 1,
                Fermions::One { .. } => 2,
                Fermions::Two { .. } => 8,
            };
            let block = term_image(coeff, &code, &terms, denom);
            let ghost prev = out@;
            let mut k: usize = 0;
            while k < block.len()
                invariant
                    0 <= k <= block@.len(),
                    out@ == prev + block@.subrange(0, k as int),
                decreases block@.len() - k,
            {
                out.push(block[k]);
                assert(out@ =~= prev + block@.subrange(0, k + 1));
                k = k + 1;
            }
            proof {
                let prefix = items@.subrange(0, i + 1);
                assert(prefix.drop_last() =~= items@.subrange(0, i as int));
                assert(prefix.last() == (coeff, code));
                assert(block@.subrange(0, block@.len() as int) =~= block@);
                assert(out@.subrange(0, prev.len() as int) =~= prev);
                assert(out@.subrange(prev.len() as int, out@.len() as int) =~= block@);
            }
            i = i + 1;
        }
        proof {
            assert(items@.subrange(0, items@.len() as int) =~= items@);
            assert(is_listing(items@, self.source()@) && jw_image(items@, out@));
            assert(is_sum_image(self.source()@, out@));
            assert forall|c: Fermions| self.source()@.contains_key(c) implies in_qubit_range(c) by {
                let j = choose|j: int| 0 <= j < items@.len() && #[trigger] items@[j].1 == c;
            }
        }
        Ok(out)
    }
}

/// `last` is `first` after adding the image of the fermionic sum `m`.
pub open spec fn adds_image<T: From<u8> + core::ops::Div<Output = T> + core::ops::Neg<Output = T>, R: Target<T, Pauli>>(
    m: Map<Fermions, T>,
    first: R,
    last: R,
) -> bool {
    exists|out: Seq<(T, Pauli)>| is_sum_image(m, out) && #[trigger] adds_all(first, out, last)
}

impl<'a, T: Copy + Default + From<u8> + core::ops::Add<Output = T> + core::ops::Div<Output = T> + core::ops::Neg<Output = T>> Terms<T, Pauli> for JordanWigner<'a, T> {
    open spec fn terms_ready(&self) -> bool {
        div_neg_total::<T>()
    }

    /// Add the Pauli terms of the image of the fermionic sum to `repr`. An
    /// error, with `repr` unchanged, if an orbital index of some term is not
    /// within `0..64`.
    fn add_to<R: Target<T, Pauli>>(&mut self, repr: &mut R) -> (r: Result<(), Error>)
        ensures
            r is Ok <==> forall|c: Fermions| old(self).source()@.contains_key(c) ==> in_qubit_range(c),
            r is Ok ==> adds_image(old(self).source()@, *old(repr), *final(repr)),
            r is Err ==> *final(repr) == *old(repr) && is_qubit_index_error(r),
    {
        match self.image() {
            Ok(out) => {
                proof {
                    assert forall|i: int| 0 <= i < out@.len() implies R::accepts(#[trigger] out@[i]) by {
                        assert(out@[i].1.code_valid());
                    }
                }
                add_each(repr, &out);
                Ok(())
            },
            Err(e) => Err(e),
        }
    }
}

/// The image of the offset is the identity string, with the coefficient of
/// the offset.
pub proof fn lemma_jw_offset()
    ensures
        spec_jw_terms(Fermions::Offset) == seq![(Root4::R0, identity_ops())],
        jw_denominator(Fermions::Offset) == 1,
{
    let e = expand(ladder_ops(Fermions::Offset));
    assert(ladder_ops(Fermions::Offset) =~= Seq::<LadderOp>::empty());
    assert(e == seq![(Root4::R0, identity_ops())]);
    assert(e.drop_last() =~= Seq::<PhasedOps>::empty());
    assert(real_terms(e.drop_last()) == Seq::<PhasedOps>::empty());
    assert(is_real(e.last()));
    assert(real_terms(e) =~= seq![(Root4::R0, identity_ops())]);
}

/// The phase of a product of strings whose qubits produce no phase, but at
/// qubit `k`.
proof fn lemma_phase_one_site(a: Seq<PauliOp>, b: Seq<PauliOp>, k: int, n: nat)
    requires
        a.len() == 64,
        b.len() == 64,
        n <= 64,
        0 <= k < 64,
        forall|i: int| 0 <= i < 64 && i != k ==> (#[trigger] site_product(a[i], b[i])).0 == Root4::R0,
    ensures
        string_phase(a, b, n) == if k < n { site_product(a[k], b[k]).0 } else { Root4::R0 },
    decreases n,
{
    if n > 0 {
        lemma_phase_one_site(a, b, k, (n - 1) as nat);
    }
}

/// The string `X` or `Y` at qubits `p` and `q` (`p < q`), with Z operators
/// in between: `P Z ... Z P`.
pub open spec fn hopping_string(p: int, q: int, op: PauliOp) -> Seq<PauliOp> {
    Seq::new(64, |i: int| if i == p || i == q { op } else if p < i < q { PauliOp::Z } else { PauliOp::I })
}

/// The string with a single Z operator at qubit `p`.
pub open spec fn z_string(p: int) -> Seq<PauliOp> {
    Seq::new(64, |i: int| if i == p { PauliOp::Z } else { PauliOp::I })
}

/// The product of two Jordan-Wigner strings at qubits `p <= q`.
proof fn lemma_jw_string_product(p: int, q: int, a: PauliOp, b: PauliOp)
    requires
        0 <= p <= q < 64,
        a == PauliOp::X || a == PauliOp::Y,
        b == PauliOp::X || b == PauliOp::Y,
    ensures
        p < q ==> string_phase(jw_string(p, a), jw_string(q, b), 64) == site_product(a, PauliOp::Z).0,
        p < q ==> string_ops(jw_string(p, a), jw_string(q, b)) == Seq::new(
            64,
            |i: int|
                if i == p {
                    site_product(a, PauliOp::Z).1
                } else if i == q {
                    b
                } else if p < i < q {
                    PauliOp::Z
                } else {
                    PauliOp::I
                },
        ),
        p == q ==> string_phase(jw_string(p, a), jw_string(q, b), 64) == site_product(a, b).0,
        p == q ==> string_ops(jw_string(p, a), jw_string(q, b)) == Seq::new(
            64,
            |i: int| if i == p { site_product(a, b).1 } else { PauliOp::I },
        ),
{
    let x = jw_string(p, a);
    let y = jw_string(q, b);
    assert forall|i: int| 0 <= i < 64 && i != p implies (#[trigger] site_product(x[i], y[i])).0 == Root4::R0 by {
        lemma_site_product(x[i], y[i], x[i]);
    }
    lemma_phase_one_site(x, y, p, 64);
    if p < q {
        assert(string_ops(x, y) =~= Seq::new(
            64,
            |i: int|
                if i == p {
                    site_product(a, PauliOp::Z).1
                } else if i == q {
                    b
                } else if p < i < q {
                    PauliOp::Z
                } else {
                    PauliOp::I
                },
        ));
    } else {
        assert(string_ops(x, y) =~= Seq::new(
            64,
            |i: int| if i == p { site_product(a, b).1 } else { PauliOp::I },
        ));
    }
}

/// Multiplying a string by the identity string leaves it and its phase.
proof fn lemma_term_times_identity(t: PhasedOps)
    requires
        t.1.len() == 64,
    ensures
        term_product(t, (Root4::R0, identity_ops())) == t,
{
    lemma_string_phase_identity(t.1, 64);
    assert(string_ops(t.1, identity_ops()) =~= t.1) by {
        assert forall|i: int| 0 <= i < 64 implies string_ops(t.1, identity_ops())[i] == t.1[i] by {
            lemma_site_product(t.1[i], t.1[i], t.1[i]);
        }
    }
}

/// The terms of the product of an operator with a sum of two terms.
proof fn lemma_mul_terms_two(op: LadderOp, t1: PhasedOps, t2: PhasedOps)
    ensures
        mul_terms(op, seq![t1]) == seq![
            term_product(op.spec_terms()[0], t1),
            term_product(op.spec_terms()[1], t1),
        ],
        mul_terms(op, seq![t1, t2]) == seq![
            term_product(op.spec_terms()[0], t1),
            term_product(op.spec_terms()[1], t1),
            term_product(op.spec_terms()[0], t2),
            term_product(op.spec_terms()[1], t2),
        ],
{
    assert(seq![t1].drop_last() =~= Seq::<PhasedOps>::empty());
    assert(seq![t1, t2].drop_last() =~= seq![t1]);
    assert(mul_terms(op, Seq::<PhasedOps>::empty()) == Seq::<PhasedOps>::empty());
    assert(seq![t1].last() == t1);
    assert(seq![t1, t2].last() == t2);
    assert(mul_terms(op, seq![t1]) =~= seq![
        term_product(op.spec_terms()[0], t1),
        term_product(op.spec_terms()[1], t1),
    ]);
    assert(mul_terms(op, seq![t1, t2]) =~= seq![
        term_product(op.spec_terms()[0], t1),
        term_product(op.spec_terms()[1], t1),
        term_product(op.spec_terms()[0], t2),
        term_product(op.spec_terms()[1], t2),
    ]);
}

/// The Jordan-Wigner image of the one-electron term `a†_p a_q + a†_q a_p`
/// (`p <= q`), each Pauli term with the sign of its weight, the weight being
/// `1/2` of the coefficient: for `p == q` the terms `I, -Z_p, -Z_p, I`
/// (that is `I - Z_p`); for `p < q` the terms `X_p Z...Z X_q` and
/// `Y_p Z...Z Y_q`.
pub open spec fn one_electron_image(p: int, q: int) -> Seq<PhasedOps> {
    if p == q {
        seq![
            (Root4::R0, identity_ops()),
            (Root4::R1, z_string(p)),
            (Root4::R1, z_string(p)),
            (Root4::R0, identity_ops()),
        ]
    } else {
        seq![(Root4::R0, hopping_string(p, q, PauliOp::X)), (Root4::R0, hopping_string(p, q, PauliOp::Y))]
    }
}

/// The image of a one-electron term in canonical order is the hopping term
/// (or the number operator, when both orbitals are the same).
pub proof fn lemma_jw_one_electron(cr: Cr, an: An)
    requires
        cr.0.n < 32,
        an.0.n < 32,
        cr.0.spec_index() <= an.0.spec_index(),
    ensures
        spec_jw_terms(Fermions::One { cr, an }) == one_electron_image(cr.0.spec_index(), an.0.spec_index()),
{
    let p = cr.0.spec_index();
    let q = an.0.spec_index();
    let opc = LadderOp::Cr(cr.0);
    let opa = LadderOp::An(an.0);
    let ops = ladder_ops(Fermions::One { cr, an });
    assert(ops.drop_first() =~= seq![opa]);
    assert(ops.drop_first().drop_first() =~= Seq::<LadderOp>::empty());
    let id = (Root4::R0, identity_ops());
    let ax = opa.spec_terms()[0];
    let ay = opa.spec_terms()[1];
    let cx = opc.spec_terms()[0];
    let cy = opc.spec_terms()[1];
    lemma_mul_terms_two(opa, id, id);
    lemma_term_times_identity(ax);
    lemma_term_times_identity(ay);
    assert(seq![opa].drop_first() =~= Seq::<LadderOp>::empty());
    assert(expand(Seq::<LadderOp>::empty()) == seq![id]);
    assert(seq![opa][0] == opa);
    assert(expand(seq![opa]) == mul_terms(opa, seq![id]));
    assert(expand(seq![opa]) == seq![ax, ay]);
    lemma_mul_terms_two(opc, ax, ay);
    let all = seq![term_product(cx, ax), term_product(cy, ax), term_product(cx, ay), term_product(cy, ay)];
    assert(ops[0] == opc);
    assert(expand(ops) == mul_terms(opc, expand(ops.drop_first())));
    assert(expand(ops) == all);
    assert(ax.0 == Root4::R0 && ay.0 == Root4::R2 && cx.0 == Root4::R0 && cy.0 == Root4::R3);
    lemma_jw_string_product(p, q, PauliOp::X, PauliOp::X);
    lemma_jw_string_product(p, q, PauliOp::Y, PauliOp::X);
    lemma_jw_string_product(p, q, PauliOp::X, PauliOp::Y);
    lemma_jw_string_product(p, q, PauliOp::Y, PauliOp::Y);
    assert(all.drop_last().drop_last().drop_last().drop_last() =~= Seq::<PhasedOps>::empty());
    assert(all.drop_last().drop_last().drop_last() =~= seq![all[0]]);
    assert(all.drop_last().drop_last() =~= seq![all[0], all[1]]);
    assert(all.drop_last() =~= seq![all[0], all[1], all[2]]);
    if p == q {
        assert(all[0].0 == Root4::R0);
        assert(all[1].0 == Root4::R1);
        assert(all[2].0 == Root4::R1);
        assert(all[3].0 == Root4::R0);
        assert(all[0].1 =~= identity_ops());
        assert(all[1].1 =~= z_string(p));
        assert(all[2].1 =~= z_string(p));
        assert(all[3].1 =~= identity_ops());
        let s1 = seq![all[0]];
        let s2 = seq![all[0], all[1]];
        let s3 = seq![all[0], all[1], all[2]];
        assert(s1.drop_last() =~= Seq::<PhasedOps>::empty());
        assert(s2.drop_last() =~= s1);
        assert(s3.drop_last() =~= s2);
        assert(real_terms(Seq::<PhasedOps>::empty()) == Seq::<PhasedOps>::empty());
        assert(real_terms(s1) =~= s1);
        assert(real_terms(s2) =~= s2);
        assert(real_terms(s3) =~= s3);
        assert(real_terms(all) =~= all);
        assert(real_terms(all) =~= one_electron_image(p, q));
    } else {
        assert(all[0].0 == Root4::R3);
        assert(all[1].0 == Root4::R0);
        assert(all[2].0 == Root4::R0);
        assert(all[3].0 == Root4::R2);
        assert(all[1].1 =~= hopping_string(p, q, PauliOp::X));
        assert(all[2].1 =~= hopping_string(p, q, PauliOp::Y));
        let s1 = seq![all[0]];
        let s2 = seq![all[0], all[1]];
        let s3 = seq![all[0], all[1], all[2]];
        assert(s1.drop_last() =~= Seq::<PhasedOps>::empty());
        assert(s2.drop_last() =~= s1);
        assert(s3.drop_last() =~= s2);
        assert(real_terms(Seq::<PhasedOps>::empty()) == Seq::<PhasedOps>::empty());
        assert(real_terms(s1) =~= Seq::<PhasedOps>::empty());
        assert(real_terms(s2) =~= seq![all[1]]);
        assert(real_terms(s3) =~= seq![all[1], all[2]]);
        assert(real_terms(all) =~= seq![all[1], all[2]]);
        assert(real_terms(all) =~= one_electron_image(p, q));
    }
}

/// Each term on the right gives two consecutive terms of the product.
proof fn lemma_mul_terms_index(op: LadderOp, rhs: Seq<PhasedOps>)
    ensures
        mul_terms(op, rhs).len() == 2 * rhs.len(),
        forall|j: int, k: int|
            0 <= j < rhs.len() && 0 <= k < 2 ==> #[trigger] mul_terms(op, rhs)[2 * j + k] == term_product(
                op.spec_terms()[k],
                rhs[j],
            ),
    decreases rhs.len(),
{
    if rhs.len() > 0 {
        let init = rhs.drop_last();
        lemma_mul_terms_index(op, init);
        let m = mul_terms(op, rhs);
        assert forall|j: int, k: int| 0 <= j < rhs.len() && 0 <= k < 2 implies #[trigger] m[2 * j + k]
            == term_product(op.spec_terms()[k], rhs[j]) by {
            if j < init.len() {
                assert(rhs[j] == init[j]);
                assert(m[2 * j + k] == mul_terms(op, init)[2 * j + k]);
            } else {
                assert(j == init.len());
            }
        }
    }
}

/// The phase of a product of strings whose qubits produce no phase, but at
/// qubits `k1 < k2`.
proof fn lemma_phase_two_sites(a: Seq<PauliOp>, b: Seq<PauliOp>, k1: int, k2: int, n: nat)
    requires
        a.len() == 64,
        b.len() == 64,
        n <= 64,
        0 <= k1 < k2 < 64,
        forall|i: int| 0 <= i < 64 && i != k1 && i != k2 ==> (#[trigger] site_product(a[i], b[i])).0 == Root4::R0,
    ensures
        string_phase(a, b, n) == (if k1 < n { site_product(a[k1], b[k1]).0 } else { Root4::R0 }).spec_mul(
            if k2 < n { site_product(a[k2], b[k2]).0 } else { Root4::R0 },
        ),
    decreases n,
{
    if n > 0 {
        lemma_phase_two_sites(a, b, k1, k2, (n - 1) as nat);
    }
}

/// All terms with a real phase are kept.
proof fn lemma_real_terms_all(terms: Seq<PhasedOps>)
    requires
        forall|i: int| 0 <= i < terms.len() ==> is_real(#[trigger] terms[i]),
    ensures
        real_terms(terms) == terms,
    decreases terms.len(),
{
    if terms.len() > 0 {
        lemma_real_terms_all(terms.drop_last());
        assert(terms.drop_last().push(terms.last()) =~= terms);
    }
}

/// `X` for the choice 0, `Y` for the choice 1.
spec fn choice(bit: int) -> PauliOp {
    if bit == 0 { PauliOp::X } else { PauliOp::Y }
}

/// The string of the product `(Z..Z b)_q (Z..Z a)_p`, `p < q`.
spec fn level2_ops(p: int, q: int, a: PauliOp, b: PauliOp) -> Seq<PauliOp> {
    Seq::new(
        64,
        |i: int|
            if i == p {
                site_product(PauliOp::Z, a).1
            } else if p < i < q {
                PauliOp::Z
            } else if i == q {
                b
            } else {
                PauliOp::I
            },
    )
}

/// The string of the product `(Z..Z c)_q (Z..Z b)_q (Z..Z a)_p`, `p < q`.
spec fn level3_ops(p: int, q: int, a: PauliOp, b: PauliOp, c: PauliOp) -> Seq<PauliOp> {
    Seq::new(
        64,
        |i: int|
            if i < p {
                PauliOp::Z
            } else if i == p {
                a
            } else if i == q {
                site_product(c, b).1
            } else {
                PauliOp::I
            },
    )
}

/// The string of the product of the four strings of `a†_p a†_q a_q a_p`.
spec fn level4_ops(p: int, q: int, a: PauliOp, b: PauliOp, c: PauliOp, d: PauliOp) -> Seq<PauliOp> {
    Seq::new(
        64,
        |i: int|
            if i == p {
                site_product(d, a).1
            } else if i == q {
                site_product(c, b).1
            } else {
                PauliOp::I
            },
    )
}

/// An operator `X` or `Y` times `Z` and `Z` again gives the operator back.
proof fn lemma_zz(a: PauliOp)
    requires
        a == PauliOp::X || a == PauliOp::Y,
    ensures
        site_product(PauliOp::Z, site_product(PauliOp::Z, a).1).1 == a,
{
}

proof fn lemma_level2(p: int, q: int, a: PauliOp, b: PauliOp)
    requires
        0 <= p < q < 64,
        a == PauliOp::X || a == PauliOp::Y,
        b == PauliOp::X || b == PauliOp::Y,
    ensures
        string_phase(jw_string(q, b), jw_string(p, a), 64) == site_product(PauliOp::Z, a).0,
        string_ops(jw_string(q, b), jw_string(p, a)) == level2_ops(p, q, a, b),
{
    let x = jw_string(q, b);
    let y = jw_string(p, a);
    assert forall|i: int| 0 <= i < 64 && i != p implies (#[trigger] site_product(x[i], y[i])).0 == Root4::R0 by {
        lemma_site_product(x[i], y[i], x[i]);
    }
    lemma_phase_one_site(x, y, p, 64);
    assert forall|i: int| 0 <= i < 64 implies #[trigger] string_ops(x, y)[i] == level2_ops(p, q, a, b)[i] by {
        lemma_site_product(x[i], y[i], x[i]);
    }
    assert(string_ops(x, y) =~= level2_ops(p, q, a, b));
}

proof fn lemma_level3(p: int, q: int, a: PauliOp, b: PauliOp, c: PauliOp)
    requires
        0 <= p < q < 64,
        a == PauliOp::X || a == PauliOp::Y,
        b == PauliOp::X || b == PauliOp::Y,
        c == PauliOp::X || c == PauliOp::Y,
    ensures
        string_phase(jw_string(q, c), level2_ops(p, q, a, b), 64) == site_product(
            PauliOp::Z,
            site_product(PauliOp::Z, a).1,
        ).0.spec_mul(site_product(c, b).0),
        string_ops(jw_string(q, c), level2_ops(p, q, a, b)) == level3_ops(p, q, a, b, c),
{
    let x = jw_string(q, c);
    let y = level2_ops(p, q, a, b);
    assert forall|i: int| 0 <= i < 64 && i != p && i != q implies (#[trigger] site_product(x[i], y[i])).0
        == Root4::R0 by {
        lemma_site_product(x[i], y[i], x[i]);
    }
    lemma_phase_two_sites(x, y, p, q, 64);
    lemma_zz(a);
    assert forall|i: int| 0 <= i < 64 implies #[trigger] string_ops(x, y)[i] == level3_ops(p, q, a, b, c)[i] by {
        lemma_site_product(x[i], y[i], x[i]);
    }
    assert(string_ops(x, y) =~= level3_ops(p, q, a, b, c));
}

proof fn lemma_level4(p: int, q: int, a: PauliOp, b: PauliOp, c: PauliOp, d: PauliOp)
    requires
        0 <= p < q < 64,
        a == PauliOp::X || a == PauliOp::Y,
        b == PauliOp::X || b == PauliOp::Y,
        c == PauliOp::X || c == PauliOp::Y,
        d == PauliOp::X || d == PauliOp::Y,
    ensures
        string_phase(jw_string(p, d), level3_ops(p, q, a, b, c), 64) == site_product(d, a).0,
        string_ops(jw_string(p, d), level3_ops(p, q, a, b, c)) == level4_ops(p, q, a, b, c, d),
{
    let x = jw_string(p, d);
    let y = level3_ops(p, q, a, b, c);
    assert forall|i: int| 0 <= i < 64 && i != p implies (#[trigger] site_product(x[i], y[i])).0 == Root4::R0 by {
        lemma_site_product(x[i], y[i], x[i]);
    }
    lemma_phase_one_site(x, y, p, 64);
    assert forall|i: int| 0 <= i < 64 implies #[trigger] string_ops(x, y)[i] == level4_ops(p, q, a, b, c, d)[i] by {
        lemma_site_product(x[i], y[i], x[i]);
    }
    assert(string_ops(x, y) =~= level4_ops(p, q, a, b, c, d));
}

/// The phase of the `X` (choice 0) or `Y` (choice 1) term of an annihilation
/// operator.
spec fn an_phase(bit: int) -> Root4 {
    if bit == 0 { Root4::R0 } else { Root4::R2 }
}

/// The phase of the `X` (choice 0) or `Y` (choice 1) term of a creation
/// operator.
spec fn cr_phase(bit: int) -> Root4 {
    if bit == 0 { Root4::R0 } else { Root4::R3 }
}

spec fn level2_phase(a: int, b: int) -> Root4 {
    an_phase(b).spec_mul(an_phase(a)).spec_mul(site_product(PauliOp::Z, choice(a)).0)
}

spec fn level3_phase(a: int, b: int, c: int) -> Root4 {
    cr_phase(c).spec_mul(level2_phase(a, b)).spec_mul(
        site_product(PauliOp::Z, site_product(PauliOp::Z, choice(a)).1).0.spec_mul(
            site_product(choice(c), choice(b)).0,
        ),
    )
}

spec fn level4_phase(a: int, b: int, c: int, d: int) -> Root4 {
    cr_phase(d).spec_mul(level3_phase(a, b, c)).spec_mul(site_product(choice(d), choice(a)).0)
}

/// The terms of `a_q a_p`.
spec fn coulomb_level2(po: Orbital, qo: Orbital) -> Seq<PhasedOps> {
    mul_terms(LadderOp::An(qo), expand(seq![LadderOp::An(po)]))
}

/// The terms of `a†_q a_q a_p`.
spec fn coulomb_level3(po: Orbital, qo: Orbital) -> Seq<PhasedOps> {
    mul_terms(LadderOp::Cr(qo), coulomb_level2(po, qo))
}

/// The terms of `a†_p a†_q a_q a_p`.
spec fn coulomb_level4(po: Orbital, qo: Orbital) -> Seq<PhasedOps> {
    mul_terms(LadderOp::Cr(po), coulomb_level3(po, qo))
}

proof fn lemma_coulomb_level1(po: Orbital)
    ensures
        expand(seq![LadderOp::An(po)]) == seq![
            (Root4::R0, jw_string(po.spec_index(), PauliOp::X)),
            (Root4::R2, jw_string(po.spec_index(), PauliOp::Y)),
        ],
{
    let opa = LadderOp::An(po);
    let id = (Root4::R0, identity_ops());
    lemma_mul_terms_two(opa, id, id);
    lemma_term_times_identity(opa.spec_terms()[0]);
    lemma_term_times_identity(opa.spec_terms()[1]);
    assert(seq![opa].drop_first() =~= Seq::<LadderOp>::empty());
    assert(expand(Seq::<LadderOp>::empty()) == seq![id]);
    assert(seq![opa][0] == opa);
}

#[verifier::rlimit(40)]
proof fn lemma_coulomb_level2(po: Orbital, qo: Orbital, a: int, b: int)
    requires
        po.n < 32,
        qo.n < 32,
        po.spec_index() < qo.spec_index(),
        0 <= a < 2,
        0 <= b < 2,
    ensures
        coulomb_level2(po, qo).len() == 4,
        coulomb_level2(po, qo)[2 * a + b] == (
            level2_phase(a, b),
            level2_ops(po.spec_index(), qo.spec_index(), choice(a), choice(b)),
        ),
{
    let e1 = expand(seq![LadderOp::An(po)]);
    lemma_coulomb_level1(po);
    lemma_mul_terms_index(LadderOp::An(qo), e1);
    assert(coulomb_level2(po, qo)[2 * a + b] == term_product(LadderOp::An(qo).spec_terms()[b], e1[a]));
    lemma_level2(po.spec_index(), qo.spec_index(), choice(a), choice(b));
}

#[verifier::rlimit(40)]
proof fn lemma_coulomb_level3(po: Orbital, qo: Orbital, a: int, b: int, c: int)
    requires
        po.n < 32,
        qo.n < 32,
        po.spec_index() < qo.spec_index(),
        0 <= a < 2,
        0 <= b < 2,
        0 <= c < 2,
    ensures
        coulomb_level3(po, qo).len() == 8,
        coulomb_level3(po, qo)[4 * a + 2 * b + c] == (
            level3_phase(a, b, c),
            level3_ops(po.spec_index(), qo.spec_index(), choice(a), choice(b), choice(c)),
        ),
{
    let e2 = coulomb_level2(po, qo);
    lemma_coulomb_level2(po, qo, a, b);
    lemma_mul_terms_index(LadderOp::Cr(qo), e2);
    assert(4 * a + 2 * b + c == 2 * (2 * a + b) + c);
    assert(coulomb_level3(po, qo)[2 * (2 * a + b) + c] == term_product(
        LadderOp::Cr(qo).spec_terms()[c],
        e2[2 * a + b],
    ));
    lemma_level3(po.spec_index(), qo.spec_index(), choice(a), choice(b), choice(c));
}

#[verifier::rlimit(40)]
proof fn lemma_coulomb_level4(po: Orbital, qo: Orbital, a: int, b: int, c: int, d: int)
    requires
        po.n < 32,
        qo.n < 32,
        po.spec_index() < qo.spec_index(),
        0 <= a < 2,
        0 <= b < 2,
        0 <= c < 2,
        0 <= d < 2,
    ensures
        coulomb_level4(po, qo).len() == 16,
        coulomb_level4(po, qo)[8 * a + 4 * b + 2 * c + d] == (
            level4_phase(a, b, c, d),
            level4_ops(po.spec_index(), qo.spec_index(), choice(a), choice(b), choice(c), choice(d)),
        ),
{
    let e3 = coulomb_level3(po, qo);
    lemma_coulomb_level3(po, qo, a, b, c);
    lemma_mul_terms_index(LadderOp::Cr(po), e3);
    assert(8 * a + 4 * b + 2 * c + d == 2 * (4 * a + 2 * b + c) + d);
    assert(coulomb_level4(po, qo)[2 * (4 * a + 2 * b + c) + d] == term_product(
        LadderOp::Cr(po).spec_terms()[d],
        e3[4 * a + 2 * b + c],
    ));
    lemma_level4(po.spec_index(), qo.spec_index(), choice(a), choice(b), choice(c), choice(d));
}

/// Term `i` of the Jordan-Wigner image of `a†_p a†_q a_q a_p` (`p < q`), whose
/// 16 terms come from choosing the `X` or `Y` term of each of the four
/// operators. When the choices at `a†_p` and `a_p` agree, the term is the
/// identity at qubit `p`, else `Z_p`; likewise at `q`; the sign is negative
/// when exactly one of the qubits carries `Z`. Summed up, the 16 terms give
/// four times `I - Z_p - Z_q + Z_p Z_q`, that is `(I - Z_p)(I - Z_q)`.
pub open spec fn coulomb_term(p: int, q: int, i: int) -> PhasedOps {
    number_product_term(p, q, i / 8 == i % 2, (i / 4) % 2 == (i / 2) % 2)
}

/// One term of the product of the number operators of qubits `p` and `q`:
/// `I` or `-Z` at `p` (`same_p` or not) times `I` or `-Z` at `q`.
pub open spec fn number_product_term(p: int, q: int, same_p: bool, same_q: bool) -> PhasedOps {
    (
        if same_p == same_q { Root4::R0 } else { Root4::R1 },
        Seq::new(64, |j: int| if (j == p && !same_p) || (j == q && !same_q) { PauliOp::Z } else { PauliOp::I }),
    )
}

/// The 16 terms of the Jordan-Wigner image of `a†_p a†_q a_q a_p`.
pub open spec fn coulomb_image(p: int, q: int) -> Seq<PhasedOps> {
    Seq::new(16, |i: int| coulomb_term(p, q, i))
}

proof fn lemma_coulomb_entry(p: int, q: int, a: int, b: int, c: int, d: int)
    requires
        0 <= p < q < 64,
        0 <= a < 2,
        0 <= b < 2,
        0 <= c < 2,
        0 <= d < 2,
    ensures
        level4_phase(a, b, c, d) == number_product_term(p, q, a == d, b == c).0,
        level4_ops(p, q, choice(a), choice(b), choice(c), choice(d)) == number_product_term(p, q, a == d, b == c).1,
{
    assert(level4_ops(p, q, choice(a), choice(b), choice(c), choice(d)) =~= number_product_term(
        p,
        q,
        a == d,
        b == c,
    ).1);
}

proof fn lemma_coulomb_terms(po: Orbital, qo: Orbital)
    requires
        po.n < 32,
        qo.n < 32,
        po.spec_index() < qo.spec_index(),
    ensures
        coulomb_level4(po, qo) == coulomb_image(po.spec_index(), qo.spec_index()),
{
    let p = po.spec_index();
    let q = qo.spec_index();
    let e4 = coulomb_level4(po, qo);
    lemma_coulomb_level4(po, qo, 0, 0, 0, 0);
    assert forall|i: int| 0 <= i < 16 implies #[trigger] e4[i] == coulomb_term(p, q, i) by {
        let a = i / 8;
        let b = (i / 4) % 2;
        let c = (i / 2) % 2;
        let d = i % 2;
        assert(8 * a + 4 * b + 2 * c + d == i);
        lemma_coulomb_level4(po, qo, a, b, c, d);
        lemma_coulomb_entry(p, q, a, b, c, d);
    }
    assert(e4 =~= coulomb_image(p, q));
}

/// The image of the two-electron term `a†_p a†_q a_q a_p` (`p < q`) is the
/// product of the number operators of `p` and `q`: every term is `I`,
/// `-Z_p`, `-Z_q` or `Z_p Z_q`, each four times.
pub proof fn lemma_jw_coulomb(po: Orbital, qo: Orbital)
    requires
        po.n < 32,
        qo.n < 32,
        po.spec_index() < qo.spec_index(),
    ensures
        spec_jw_terms(Fermions::Two { cr: (Cr(po), Cr(qo)), an: (An(qo), An(po)) }) == coulomb_image(
            po.spec_index(),
            qo.spec_index(),
        ),
{
    let p = po.spec_index();
    let q = qo.spec_index();
    let code = Fermions::Two { cr: (Cr(po), Cr(qo)), an: (An(qo), An(po)) };
    let ops = ladder_ops(code);
    let tail3 = seq![LadderOp::Cr(qo), LadderOp::An(qo), LadderOp::An(po)];
    let tail2 = seq![LadderOp::An(qo), LadderOp::An(po)];
    let tail1 = seq![LadderOp::An(po)];
    assert(ops.drop_first() =~= tail3);
    assert(tail3.drop_first() =~= tail2);
    assert(tail2.drop_first() =~= tail1);
    assert(expand(tail2) == coulomb_level2(po, qo));
    assert(expand(tail3) == coulomb_level3(po, qo));
    assert(expand(ops) == coulomb_level4(po, qo));
    lemma_coulomb_terms(po, qo);
    let e4 = coulomb_level4(po, qo);
    assert forall|i: int| 0 <= i < e4.len() implies is_real(#[trigger] e4[i]) by {
        assert(e4[i] == coulomb_term(p, q, i));
    }
    lemma_real_terms_all(e4);
}
/// The first term of the image of `a†_p a†_q a_r a_s` with `p < q < s < r`:
/// `Y_p Z..Z X_q` times `Y_s Z..Z X_r`, with a positive sign.
pub open spec fn ordered_exchange_first(p: int, q: int, r: int, s: int) -> PhasedOps {
    (
        Root4::R0,
        Seq::new(
            64,
            |i: int|
                if i == p || i == s {
                    PauliOp::Y
                } else if i == q || i == r {
                    PauliOp::X
                } else if p < i < q || s < i < r {
                    PauliOp::Z
                } else {
                    PauliOp::I
                },
        ),
    )
}

/// A real first term is kept first.
proof fn lemma_real_terms_first(terms: Seq<PhasedOps>)
    requires
        terms.len() > 0,
        is_real(terms[0]),
    ensures
        real_terms(terms).len() > 0,
        real_terms(terms)[0] == terms[0],
    decreases terms.len(),
{
    let init = terms.drop_last();
    let tail = if is_real(terms.last()) { seq![terms.last()] } else { Seq::<PhasedOps>::empty() };
    assert(real_terms(terms) == real_terms(init) + tail);
    if terms.len() > 1 {
        assert(init[0] == terms[0]);
        lemma_real_terms_first(init);
        assert((real_terms(init) + tail)[0] == real_terms(init)[0]);
    } else {
        assert(init =~= Seq::<PhasedOps>::empty());
        assert(real_terms(init) == Seq::<PhasedOps>::empty());
        assert(real_terms(init) + tail =~= seq![terms[0]]);
    }
}

/// `jw(r, X) jw(s, X)` for `s < r`.
proof fn lemma_exchange_level2(s: int, r: int)
    requires
        0 <= s < r < 64,
    ensures
        string_phase(jw_string(r, PauliOp::X), jw_string(s, PauliOp::X), 64) == Root4::R2,
        string_ops(jw_string(r, PauliOp::X), jw_string(s, PauliOp::X)) == Seq::new(
            64,
            |i: int| if i == s { PauliOp::Y } else if s < i < r { PauliOp::Z } else if i == r { PauliOp::X } else { PauliOp::I },
        ),
{
    let x = jw_string(r, PauliOp::X);
    let y = jw_string(s, PauliOp::X);
    assert forall|i: int| 0 <= i < 64 && i != s implies (#[trigger] site_product(x[i], y[i])).0 == Root4::R0 by {
        lemma_site_product(x[i], y[i], x[i]);
    }
    lemma_phase_one_site(x, y, s, 64);
    assert(string_ops(x, y) =~= Seq::new(
        64,
        |i: int| if i == s { PauliOp::Y } else if s < i < r { PauliOp::Z } else if i == r { PauliOp::X } else { PauliOp::I },
    ));
}

/// `jw(q, X)` times the string of level 2, for `q < s < r`.
proof fn lemma_exchange_level3(q: int, s: int, r: int)
    requires
        0 <= q < s < r < 64,
    ensures
        ({
            let l2 = Seq::new(
                64,
                |i: int| if i == s { PauliOp::Y } else if s < i < r { PauliOp::Z } else if i == r { PauliOp::X } else { PauliOp::I },
            );
            &&& string_phase(jw_string(q, PauliOp::X), l2, 64) == Root4::R0
            &&& string_ops(jw_string(q, PauliOp::X), l2) == Seq::new(
                64,
                |i: int|
                    if i < q {
                        PauliOp::Z
                    } else if i == q || i == r {
                        PauliOp::X
                    } else if i == s {
                        PauliOp::Y
                    } else if s < i < r {
                        PauliOp::Z
                    } else {
                        PauliOp::I
                    },
            )
        }),
{
    let l2 = Seq::new(
        64,
        |i: int| if i == s { PauliOp::Y } else if s < i < r { PauliOp::Z } else if i == r { PauliOp::X } else { PauliOp::I },
    );
    let x = jw_string(q, PauliOp::X);
    assert forall|i: int| 0 <= i < 64 && i != q implies (#[trigger] site_product(x[i], l2[i])).0 == Root4::R0 by {
        lemma_site_product(x[i], l2[i], x[i]);
    }
    lemma_phase_one_site(x, l2, q, 64);
    assert(string_ops(x, l2) =~= Seq::new(
        64,
        |i: int|
            if i < q {
                PauliOp::Z
            } else if i == q || i == r {
                PauliOp::X
            } else if i == s {
                PauliOp::Y
            } else if s < i < r {
                PauliOp::Z
            } else {
                PauliOp::I
            },
    ));
}

/// `jw(p, X)` times the string of level 3, for `p < q < s < r`.
proof fn lemma_exchange_level4(p: int, q: int, s: int, r: int)
    requires
        0 <= p < q < s < r < 64,
    ensures
        ({
            let l3 = Seq::new(
                64,
                |i: int|
                    if i < q {
                        PauliOp::Z
                    } else if i == q || i == r {
                        PauliOp::X
                    } else if i == s {
                        PauliOp::Y
                    } else if s < i < r {
                        PauliOp::Z
                    } else {
                        PauliOp::I
                    },
            );
            &&& string_phase(jw_string(p, PauliOp::X), l3, 64) == Root4::R3
            &&& string_ops(jw_string(p, PauliOp::X), l3) == ordered_exchange_first(p, q, r, s).1
        }),
{
    let l3 = Seq::new(
        64,
        |i: int|
            if i < q {
                PauliOp::Z
            } else if i == q || i == r {
                PauliOp::X
            } else if i == s {
                PauliOp::Y
            } else if s < i < r {
                PauliOp::Z
            } else {
                PauliOp::I
            },
    );
    let x = jw_string(p, PauliOp::X);
    assert forall|i: int| 0 <= i < 64 && i != p implies (#[trigger] site_product(x[i], l3[i])).0 == Root4::R0 by {
        lemma_site_product(x[i], l3[i], x[i]);
    }
    lemma_phase_one_site(x, l3, p, 64);
    assert(string_ops(x, l3) =~= ordered_exchange_first(p, q, r, s).1);
}

/// The image of a two-electron term `a†_p a†_q a_r a_s + h.c.` with
/// `p < q < s < r` starts with the term that takes the `X` part of every
/// operator: `Y_p Z..Z X_q Y_s Z..Z X_r`, with a positive weight. The order of
/// the operators matters: the term `a†_p a†_q a_s a_r` would give it a
/// negative weight.
pub proof fn lemma_jw_ordered_exchange(po: Orbital, qo: Orbital, ro: Orbital, so: Orbital)
    requires
        po.n < 32,
        qo.n < 32,
        ro.n < 32,
        so.n < 32,
        po.spec_index() < qo.spec_index() < so.spec_index() < ro.spec_index(),
    ensures
        spec_jw_terms(Fermions::Two { cr: (Cr(po), Cr(qo)), an: (An(ro), An(so)) }).len() > 0,
        spec_jw_terms(Fermions::Two { cr: (Cr(po), Cr(qo)), an: (An(ro), An(so)) })[0] == ordered_exchange_first(
            po.spec_index(),
            qo.spec_index(),
            ro.spec_index(),
            so.spec_index(),
        ),
{
    let (p, q, r, s) = (po.spec_index(), qo.spec_index(), ro.spec_index(), so.spec_index());
    let code = Fermions::Two { cr: (Cr(po), Cr(qo)), an: (An(ro), An(so)) };
    let ops = ladder_ops(code);
    let tail3 = seq![LadderOp::Cr(qo), LadderOp::An(ro), LadderOp::An(so)];
    let tail2 = seq![LadderOp::An(ro), LadderOp::An(so)];
    let tail1 = seq![LadderOp::An(so)];
    assert(ops.drop_first() =~= tail3);
    assert(tail3.drop_first() =~= tail2);
    assert(tail2.drop_first() =~= tail1);
    let e1 = expand(tail1);
    lemma_coulomb_level1(so);
    let e2 = expand(tail2);
    assert(e2 == mul_terms(LadderOp::An(ro), e1));
    lemma_mul_terms_index(LadderOp::An(ro), e1);
    assert(e2[0] == term_product(LadderOp::An(ro).spec_terms()[0], e1[0])) by {
        assert(e2[2 * 0int + 0] == term_product(LadderOp::An(ro).spec_terms()[0], e1[0]));
    }
    lemma_exchange_level2(s, r);
    let e3 = expand(tail3);
    assert(e3 == mul_terms(LadderOp::Cr(qo), e2));
    lemma_mul_terms_index(LadderOp::Cr(qo), e2);
    assert(e3[0] == term_product(LadderOp::Cr(qo).spec_terms()[0], e2[0])) by {
        assert(e3[2 * 0int + 0] == term_product(LadderOp::Cr(qo).spec_terms()[0], e2[0]));
    }
    lemma_exchange_level3(q, s, r);
    let e4 = expand(ops);
    assert(e4 == mul_terms(LadderOp::Cr(po), e3));
    lemma_mul_terms_index(LadderOp::Cr(po), e3);
    assert(e4[0] == term_product(LadderOp::Cr(po).spec_terms()[0], e3[0])) by {
        assert(e4[2 * 0int + 0] == term_product(LadderOp::Cr(po).spec_terms()[0], e3[0]));
    }
    lemma_exchange_level4(p, q, s, r);
    assert(e4[0] == ordered_exchange_first(p, q, r, s));
    lemma_real_terms_first(e4);
}

/// The string `Y_s Z..Z X_r` of `jw(r, X) jw(s, X)`, `s < r`.
spec fn exchange_level2_ops(s: int, r: int) -> Seq<PauliOp> {
    Seq::new(
        64,
        |i: int| if i == s { PauliOp::Y } else if s < i < r { PauliOp::Z } else if i == r { PauliOp::X } else { PauliOp::I },
    )
}

/// The string of `jw(q, X) jw(r, X) jw(s, X)` for `s < q` and `q != r`: `Z`
/// below `s`, `X_s`, then `Y` at the smaller and `X` at the larger of `q` and
/// `r`, with `Z` between them.
spec fn crossed_level3_ops(q: int, r: int, s: int) -> Seq<PauliOp> {
    let lo = if q < r { q } else { r };
    let hi = if q < r { r } else { q };
    Seq::new(
        64,
        |i: int|
            if i < s {
                PauliOp::Z
            } else if i == s || i == hi {
                PauliOp::X
            } else if i == lo {
                PauliOp::Y
            } else if lo < i < hi {
                PauliOp::Z
            } else {
                PauliOp::I
            },
    )
}

/// The first term of the image of `a†_p a†_q a_r a_s` with `p < s < q` and
/// `s < r`, `q != r`: `Y_p Z..Z X_s` times `Y Z..Z X` on the smaller and the
/// larger of `q` and `r`; its sign is negative when `q < r` and positive when
/// `r < q`.
pub open spec fn crossed_exchange_first(p: int, q: int, r: int, s: int) -> PhasedOps {
    let lo = if q < r { q } else { r };
    let hi = if q < r { r } else { q };
    (
        if q < r { Root4::R1 } else { Root4::R0 },
        Seq::new(
            64,
            |i: int|
                if i == p || i == lo {
                    PauliOp::Y
                } else if i == s || i == hi {
                    PauliOp::X
                } else if p < i < s || lo < i < hi {
                    PauliOp::Z
                } else {
                    PauliOp::I
                },
        ),
    )
}

proof fn lemma_crossed_level3(q: int, r: int, s: int)
    requires
        0 <= s < q < 64,
        s < r < 64,
        q != r,
    ensures
        string_phase(jw_string(q, PauliOp::X), exchange_level2_ops(s, r), 64) == if q < r {
            Root4::R1
        } else {
            Root4::R0
        },
        string_ops(jw_string(q, PauliOp::X), exchange_level2_ops(s, r)) == crossed_level3_ops(q, r, s),
{
    let x = jw_string(q, PauliOp::X);
    let y = exchange_level2_ops(s, r);
    let lo = if q < r { q } else { r };
    assert forall|i: int| 0 <= i < 64 && i != s && i != lo implies (#[trigger] site_product(x[i], y[i])).0
        == Root4::R0 by {
        lemma_site_product(x[i], y[i], x[i]);
    }
    lemma_phase_two_sites(x, y, s, lo, 64);
    assert(string_ops(x, y) =~= crossed_level3_ops(q, r, s));
}

proof fn lemma_crossed_level4(p: int, q: int, r: int, s: int)
    requires
        0 <= p < s < q < 64,
        s < r < 64,
        q != r,
    ensures
        string_phase(jw_string(p, PauliOp::X), crossed_level3_ops(q, r, s), 64) == Root4::R3,
        string_ops(jw_string(p, PauliOp::X), crossed_level3_ops(q, r, s)) == crossed_exchange_first(p, q, r, s).1,
{
    let x = jw_string(p, PauliOp::X);
    let y = crossed_level3_ops(q, r, s);
    assert forall|i: int| 0 <= i < 64 && i != p implies (#[trigger] site_product(x[i], y[i])).0 == Root4::R0 by {
        lemma_site_product(x[i], y[i], x[i]);
    }
    lemma_phase_one_site(x, y, p, 64);
    assert(string_ops(x, y) =~= crossed_exchange_first(p, q, r, s).1);
}

/// The image of a two-electron term `a†_p a†_q a_r a_s + h.c.` with four
/// distinct orbitals, `p < s < q` and `s < r`, starts with the term that takes
/// the `X` part of every operator, `crossed_exchange_first(p, q, r, s)`: its
/// weight is negative when `q < r` and positive when `r < q`.
pub proof fn lemma_jw_crossed_exchange(po: Orbital, qo: Orbital, ro: Orbital, so: Orbital)
    requires
        po.n < 32,
        qo.n < 32,
        ro.n < 32,
        so.n < 32,
        po.spec_index() < so.spec_index() < qo.spec_index(),
        so.spec_index() < ro.spec_index(),
        qo.spec_index() != ro.spec_index(),
    ensures
        spec_jw_terms(Fermions::Two { cr: (Cr(po), Cr(qo)), an: (An(ro), An(so)) }).len() > 0,
        spec_jw_terms(Fermions::Two { cr: (Cr(po), Cr(qo)), an: (An(ro), An(so)) })[0] == crossed_exchange_first(
            po.spec_index(),
            qo.spec_index(),
            ro.spec_index(),
            so.spec_index(),
        ),
{
    let (p, q, r, s) = (po.spec_index(), qo.spec_index(), ro.spec_index(), so.spec_index());
    let code = Fermions::Two { cr: (Cr(po), Cr(qo)), an: (An(ro), An(so)) };
    let ops = ladder_ops(code);
    let tail3 = seq![LadderOp::Cr(qo), LadderOp::An(ro), LadderOp::An(so)];
    let tail2 = seq![LadderOp::An(ro), LadderOp::An(so)];
    let tail1 = seq![LadderOp::An(so)];
    assert(ops.drop_first() =~= tail3);
    assert(tail3.drop_first() =~= tail2);
    assert(tail2.drop_first() =~= tail1);
    let e1 = expand(tail1);
    lemma_coulomb_level1(so);
    let e2 = expand(tail2);
    assert(e2 == mul_terms(LadderOp::An(ro), e1));
    lemma_mul_terms_index(LadderOp::An(ro), e1);
    assert(e2[0] == term_product(LadderOp::An(ro).spec_terms()[0], e1[0])) by {
        assert(e2[2 * 0int + 0] == term_product(LadderOp::An(ro).spec_terms()[0], e1[0]));
    }
    lemma_exchange_level2(s, r);
    assert(exchange_level2_ops(s, r) =~= string_ops(jw_string(r, PauliOp::X), jw_string(s, PauliOp::X)));
    let e3 = expand(tail3);
    assert(e3 == mul_terms(LadderOp::Cr(qo), e2));
    lemma_mul_terms_index(LadderOp::Cr(qo), e2);
    assert(e3[0] == term_product(LadderOp::Cr(qo).spec_terms()[0], e2[0])) by {
        assert(e3[2 * 0int + 0] == term_product(LadderOp::Cr(qo).spec_terms()[0], e2[0]));
    }
    lemma_crossed_level3(q, r, s);
    let e4 = expand(ops);
    assert(e4 == mul_terms(LadderOp::Cr(po), e3));
    lemma_mul_terms_index(LadderOp::Cr(po), e3);
    assert(e4[0] == term_product(LadderOp::Cr(po).spec_terms()[0], e3[0])) by {
        assert(e4[2 * 0int + 0] == term_product(LadderOp::Cr(po).spec_terms()[0], e3[0]));
    }
    lemma_crossed_level4(p, q, r, s);
    assert(e4[0] == crossed_exchange_first(p, q, r, s));
    lemma_real_terms_first(e4);
}

} // verus!
