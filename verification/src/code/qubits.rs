//! Qubit representation: Pauli operators and Pauli strings of up to 64 qubits.
use vstd::prelude::*;
use crate::Error;
use crate::code::Code;
use crate::text::push_char;
use vstd::string::*;
use crate::math::{Group, Root4, lemma_root4_regroup, lemma_root4_triple};

verus! {

/// The 2-bit field number `j` (`0 <= j < 32`) of a word.
pub open spec fn field(w: u64, j: int) -> u64 {
    (w >> ((2 * j) as u64)) & 3u64
}

/// Overwriting one 2-bit field leaves the other fields unchanged.
proof fn lemma_set_field_bits(w: u64, v: u64, s: u64, t: u64)
    by (bit_vector)
    requires
        v < 4,
        s < 64,
        t < 64,
        s % 2 == 0,
        t % 2 == 0,
    ensures
        s == t ==> (((w & !(3u64 << s)) | (v << s)) >> t) & 3u64 == v,
        s != t ==> (((w & !(3u64 << s)) | (v << s)) >> t) & 3u64 == (w >> t) & 3u64,
{
}

/// A word is its top part followed by its lowest 2-bit field.
proof fn lemma_shift_split(a: u64, s: u64)
    by (bit_vector)
    requires
        s < 62,
    ensures
        a >> s == ((a >> (s + 2)) << 2u64) | ((a >> s) & 3u64),
{
}

proof fn lemma_top_field(a: u64)
    by (bit_vector)
    ensures
        a >> 62u64 == (a >> 62u64) & 3u64,
{
}

/// Two words with equal fields from field `n` upwards agree above bit `2n`.
proof fn lemma_fields_eq_from(a: u64, b: u64, n: int)
    requires
        0 <= n < 32,
        forall|j: int| n <= j < 32 ==> field(a, j) == field(b, j),
    ensures
        a >> ((2 * n) as u64) == b >> ((2 * n) as u64),
    decreases 32 - n,
{
    if n == 31 {
        lemma_top_field(a);
        lemma_top_field(b);
        assert(field(a, 31) == field(b, 31));
    } else {
        lemma_fields_eq_from(a, b, n + 1);
        let s = (2 * n) as u64;
        lemma_shift_split(a, s);
        lemma_shift_split(b, s);
        assert(field(a, n) == field(b, n));
        assert(((2 * (n + 1)) as u64) == s + 2);
    }
}

/// Words are determined by their 32 fields.
pub proof fn lemma_fields_ext(a: u64, b: u64)
    requires
        forall|j: int| 0 <= j < 32 ==> field(a, j) == field(b, j),
    ensures
        a == b,
{
    lemma_fields_eq_from(a, b, 0);
    assert(a >> 0u64 == a) by (bit_vector);
    assert(b >> 0u64 == b) by (bit_vector);
}

/// Read the field `j` of a word.
fn get_field(w: u64, j: u16) -> (r: u64)
    requires
        j < 32,
    ensures
        r == field(w, j as int),
        r < 4,
{
    let s: u64 = (j as u64) * 2;
    let r = (w >> s) & 3u64;
    assert(r < 4) by (bit_vector)
        requires
            r == (w >> s) & 3u64,
    ;
    r
}

/// Overwrite the field `j` of a word with `v`.
fn set_field(w: u64, j: u16, v: u64) -> (r: u64)
    requires
        j < 32,
        v < 4,
    ensures
        field(r, j as int) == v,
        forall|k: int| 0 <= k < 32 && k != j ==> field(r, k) == field(w, k),
{
    let s: u64 = (j as u64) * 2;
    let r = (w & !(3u64 << s)) | (v << s);
    proof {
        lemma_set_field_bits(w, v, s, s);
        assert forall|k: int| 0 <= k < 32 && k != j implies field(r, k) == field(w, k) by {
            lemma_set_field_bits(w, v, s, (2 * k) as u64);
        }
    }
    r
}

/// Pauli operator
#[derive(Clone, Copy, Debug, Hash, PartialEq, Eq, Structural)]
pub enum PauliOp {
    I,
    X,
    Y,
    Z,
}

impl PauliOp {
    /// The 2-bit code of the operator: `I = 0b00`, `X = 0b01`, `Y = 0b10`, `Z = 0b11`.
    pub open spec fn spec_code(self) -> u64 {
        match self {
            PauliOp::I => 0,
            PauliOp::X => 1,
            PauliOp::Y => 2,
            PauliOp::Z => 3,
        }
    }

    /// The operator with the given 2-bit code.
    pub open spec fn spec_from_code(v: u64) -> PauliOp {
        if v == 0 {
            PauliOp::I
        } else if v == 1 {
            PauliOp::X
        } else if v == 2 {
            PauliOp::Y
        } else {
            PauliOp::Z
        }
    }

    /// The 2-bit code of the operator.
    pub fn code(self) -> (r: u64)
        ensures
            r == self.spec_code(),
            r < 4,
    {
        match self {
            PauliOp::I => 0,
            PauliOp::X => 1,
            PauliOp::Y => 2,
            PauliOp::Z => 3,
        }
    }

    /// The operator with a given code, if the code is within `0..=3`.
    pub fn from_code(v: u64) -> (r: Option<PauliOp>)
        ensures
            v < 4 ==> r == Some(PauliOp::spec_from_code(v)),
            v >= 4 ==> r is None,
    {
        if v == 0 {
            Some(PauliOp::I)
        } else if v == 1 {
            Some(PauliOp::X)
        } else if v == 2 {
            Some(PauliOp::Y)
        } else if v == 3 {
            Some(PauliOp::Z)
        } else {
            None
        }
    }

    /// The one-letter name of the operator.
    pub open spec fn spec_char(self) -> char {
        match self {
            PauliOp::I => 'I',
            PauliOp::X => 'X',
            PauliOp::Y => 'Y',
            PauliOp::Z => 'Z',
        }
    }

    /// The one-letter name of the operator: `I`, `X`, `Y` or `Z`.
    pub fn to_char(self) -> (r: char)
        ensures
            r == self.spec_char(),
    {
        match self {
            PauliOp::I => 'I',
            PauliOp::X => 'X',
            PauliOp::Y => 'Y',
            PauliOp::Z => 'Z',
        }
    }

    /// The operator named by a letter, if it is one of `I`, `X`, `Y`, `Z`.
    pub fn from_char(c: char) -> (r: Option<PauliOp>)
        ensures
            r matches Some(op) ==> op.spec_char() == c,
            r is None <==> !(c == 'I' || c == 'X' || c == 'Y' || c == 'Z'),
    {
        if c == 'I' {
            Some(PauliOp::I)
        } else if c == 'X' {
            Some(PauliOp::X)
        } else if c == 'Y' {
            Some(PauliOp::Y)
        } else if c == 'Z' {
            Some(PauliOp::Z)
        } else {
            None
        }
    }
}

impl Default for PauliOp {
    fn default() -> (r: Self)
        ensures
            r == PauliOp::I,
    {
        PauliOp::I
    }
}

/// Code and operator are each other's inverse.
pub proof fn lemma_pauli_op_code(op: PauliOp, v: u64)
    ensures
        PauliOp::spec_from_code(op.spec_code()) == op,
        v < 4 ==> PauliOp::spec_from_code(v).spec_code() == v,
{
}

/// Pauli string of up to 64 qubits.
///
/// Two bits encode each Pauli operator; `lo` holds qubits 0 to 31, `hi`
/// qubits 32 to 63, in little-endian order. Strings are ordered by their
/// index: `hi` first, then `lo`.
#[derive(Copy, Clone, Debug, Hash, PartialEq, Eq, PartialOrd, Ord, Structural)]
pub struct Pauli {
    hi: u64,
    lo: u64,
}

impl View for Pauli {
    type V = Seq<PauliOp>;

    /// The 64 Pauli operators of the string, qubit 0 first.
    open spec fn view(&self) -> Seq<PauliOp> {
        Seq::new(64, |i: int| self.spec_op(i))
    }
}

impl Pauli {
    /// The Pauli operator at qubit `i` (`0 <= i < 64`).
    pub open spec fn spec_op(self, i: int) -> PauliOp {
        if i < 32 {
            PauliOp::spec_from_code(field(self.spec_pack().0, i))
        } else {
            PauliOp::spec_from_code(field(self.spec_pack().1, i - 32))
        }
    }

    /// The packed representation.
    pub closed spec fn spec_pack(self) -> (u64, u64) {
        (self.lo, self.hi)
    }

    /// The 128-bit index of the string: `pack.0 + pack.1 * 2^64`.
    pub open spec fn spec_index(self) -> int {
        self.spec_pack().0 + self.spec_pack().1 * 0x1_0000_0000_0000_0000
    }

    /// Create a new code from its packed representation.
    pub fn new(pack: (u64, u64)) -> (r: Self)
        ensures
            r.spec_pack() == pack,
    {
        Pauli { lo: pack.0, hi: pack.1 }
    }

    /// Tensor product of identity operators.
    pub fn identity() -> (r: Self)
        ensures
            r.spec_pack() == (0u64, 0u64),
            r@ == Seq::new(64, |i: int| PauliOp::I),
    {
        let r = Pauli { lo: 0, hi: 0 };
        proof {
            assert forall|i: int| 0 <= i < 64 implies r.spec_op(i) == PauliOp::I by {
                lemma_field_zero(i);
            }
            assert(r@ =~= Seq::new(64, |i: int| PauliOp::I));
        }
        r
    }

    /// Enumerate the code as a 128-bit integer.
    pub fn index(&self) -> (r: u128)
        ensures
            r == self.spec_index(),
    {
        let lo = self.lo;
        let hi = self.hi;
        let r = (lo as u128) | ((hi as u128) << 64u128);
        assert(r == lo + hi * 0x1_0000_0000_0000_0000) by (bit_vector)
            requires
                r == (lo as u128) | ((hi as u128) << 64u128),
        ;
        r
    }

    /// Read out the Pauli operator at qubit `index`, or `None` if the index is
    /// not within `0..64`.
    pub fn pauli(&self, index: u16) -> (r: Option<PauliOp>)
        ensures
            index < 64 ==> r == Some(self@[index as int]),
            index >= 64 ==> r is None,
    {
        if index >= 64 {
            None
        } else if index < 32 {
            let v = get_field(self.lo, index);
            Some(op_from_field(v))
        } else {
            let v = get_field(self.hi, index - 32);
            Some(op_from_field(v))
        }
    }

    /// Apply `f` to the Pauli operator at qubit `index`, or to `None` if the
    /// index is not within `0..64`; the operator that `f` leaves behind is
    /// stored at `index`.
    pub fn pauli_mut<OP>(&mut self, index: u16, f: OP)
        where OP: FnOnce(Option<&mut PauliOp>),
        requires
            forall|x: Option<&mut PauliOp>| call_requires(f, (x,)),
        ensures
            index >= 64 ==> final(self)@ == old(self)@ && call_ensures(f, (None::<&mut PauliOp>,), ()),
            index < 64 ==> exists|m: &mut PauliOp|
                *m == old(self)@[index as int] && call_ensures(f, (Some(m),), ())
                    && final(self)@ == old(self)@.update(index as int, *final(m)),
    {
        if index >= 64 {
            f(None);
        } else {
            let mut op = match self.pauli(index) {
                Some(p) => p,
                None => PauliOp::I,
            };
            let arg = Some(&mut op);
            let ghost a = arg;
            f(arg);
            proof {
                assert(call_ensures(f, (a,), ()));
            }
            self.set(index, op);
        }
    }

    /// Set the Pauli operator at qubit `index`.
    pub fn set(&mut self, index: u16, pauli: PauliOp)
        requires
            index < 64,
        ensures
            final(self)@ == old(self)@.update(index as int, pauli),
    {
        let v = pauli.code();
        if index < 32 {
            let w = set_field(self.lo, index, v);
            self.lo = w;
        } else {
            let w = set_field(self.hi, index - 32, v);
            self.hi = w;
        }
        proof {
            lemma_pauli_op_code(pauli, v);
            assert(self@ =~= old(self)@.update(index as int, pauli));
        }
    }
}

/// After setting the operator at a qubit, reading that qubit gives the
/// operator, and every other qubit keeps its operator.
pub proof fn lemma_set_then_read(before: Pauli, after: Pauli, index: int, op: PauliOp)
    requires
        0 <= index < 64,
        after@ == before@.update(index, op),
    ensures
        after@[index] == op,
        forall|j: int| 0 <= j < 64 && j != index ==> after@[j] == before@[j],
{
}

/// The fields of zero are zero.
proof fn lemma_field_zero(i: int)
    ensures
        0 <= i < 32 ==> field(0u64, i) == 0,
        32 <= i < 64 ==> field(0u64, i - 32) == 0,
{
    if 0 <= i < 32 {
        let s = (2 * i) as u64;
        assert((0u64 >> s) & 3u64 == 0) by (bit_vector);
    }
    if 32 <= i < 64 {
        let s = (2 * (i - 32)) as u64;
        assert((0u64 >> s) & 3u64 == 0) by (bit_vector);
    }
}

fn op_from_field(v: u64) -> (r: PauliOp)
    requires
        v < 4,
    ensures
        r == PauliOp::spec_from_code(v),
{
    if v == 0 {
        PauliOp::I
    } else if v == 1 {
        PauliOp::X
    } else if v == 2 {
        PauliOp::Y
    } else {
        PauliOp::Z
    }
}

impl Pauli {
    /// A Pauli string is determined by its operators.
    pub proof fn lemma_view_ext(p: Pauli, q: Pauli)
        requires
            p@ == q@,
        ensures
            p == q,
    {
        assert forall|j: int| 0 <= j < 32 implies field(p.lo, j) == field(q.lo, j) by {
            assert(p@[j] == q@[j]);
            assert(p@[j] == p.spec_op(j));
            assert(q@[j] == q.spec_op(j));
            lemma_field_small(p.lo, j);
            lemma_field_small(q.lo, j);
            lemma_pauli_op_code(PauliOp::I, field(p.lo, j));
            lemma_pauli_op_code(PauliOp::I, field(q.lo, j));
        }
        assert forall|j: int| 0 <= j < 32 implies field(p.hi, j) == field(q.hi, j) by {
            assert(p@[j + 32] == q@[j + 32]);
            assert(p@[j + 32] == p.spec_op(j + 32));
            assert(q@[j + 32] == q.spec_op(j + 32));
            lemma_field_small(p.hi, j);
            lemma_field_small(q.hi, j);
            lemma_pauli_op_code(PauliOp::I, field(p.hi, j));
            lemma_pauli_op_code(PauliOp::I, field(q.hi, j));
        }
        lemma_fields_ext(p.lo, q.lo);
        lemma_fields_ext(p.hi, q.hi);
    }

    /// The string is determined by its packed representation.
    pub proof fn lemma_pack_ext(p: Pauli, q: Pauli)
        requires
            p.spec_pack() == q.spec_pack(),
        ensures
            p == q,
    {
    }

    /// The string of `ops`, padded with identities to 64 qubits.
    pub open spec fn spec_from_ops(ops: Seq<PauliOp>) -> Seq<PauliOp> {
        Seq::new(64, |i: int| if i < ops.len() { ops[i] } else { PauliOp::I })
    }

    /// Build the code from a sequence of Paulis; operators beyond the
    /// 64th are ignored.
    pub fn from_paulis(ops: &[PauliOp]) -> (r: Self)
        ensures
            r@ == Self::spec_from_ops(ops@),
    {
        let mut code = Pauli::identity();
        let n: usize = if ops.len() < 64 { ops.len() } else { 64 };
        let mut i: usize = 0;
        while i < n
            invariant
                n <= 64,
                n <= ops@.len(),
                n == ops@.len() || n == 64,
                0 <= i <= n,
                forall|k: int| 0 <= k < i ==> code@[k] == ops@[k],
                forall|k: int| i <= k < 64 ==> code@[k] == PauliOp::I,
            decreases n - i,
        {
            code.set(i as u16, ops[i]);
            i = i + 1;
        }
        assert(code@ =~= Self::spec_from_ops(ops@));
        code
    }

    /// Parity operator: a consecutive string of `num_qubits` Z operators.
    pub fn parity_op(num_qubits: u16) -> (r: Self)
        requires
            num_qubits <= 64,
        ensures
            r@ == Seq::new(64, |i: int| if i < num_qubits { PauliOp::Z } else { PauliOp::I }),
    {
        let mut code = Pauli::identity();
        let mut i: u16 = 0;
        while i < num_qubits
            invariant
                num_qubits <= 64,
                0 <= i <= num_qubits,
                forall|k: int| 0 <= k < i ==> code@[k] == PauliOp::Z,
                forall|k: int| i <= k < 64 ==> code@[k] == PauliOp::I,
            decreases num_qubits - i,
        {
            code.set(i, PauliOp::Z);
            i = i + 1;
        }
        assert(code@ =~= Seq::new(64, |i: int| if i < num_qubits { PauliOp::Z } else { PauliOp::I }));
        code
    }

    /// The 64 Pauli operators of the string, qubit 0 first.
    pub fn paulis(&self) -> (r: Vec<PauliOp>)
        ensures
            r@ == self@,
    {
        let mut r: Vec<PauliOp> = Vec::new();
        let mut i: u16 = 0;
        while i < 64
            invariant
                0 <= i <= 64,
                r@ == self@.subrange(0, i as int),
            decreases 64 - i,
        {
            let op = self.pauli(i);
            match op {
                Some(op) => r.push(op),
                None => {},
            }
            assert(r@ =~= self@.subrange(0, i + 1));
            i = i + 1;
        }
        assert(r@ =~= self@);
        r
    }
}

impl Pauli {
    /// Iterate over the 64 Pauli operators of the string, qubit 0 first.
    pub fn into_iter(self) -> (r: PauliIter)
        ensures
            r@ == self@,
    {
        PauliIter { code: self, index: 0 }
    }
}

/// Iterate over Paulis in `Pauli`
#[derive(Debug)]
pub struct PauliIter {
    code: Pauli,
    index: u16,
}

impl View for PauliIter {
    type V = Seq<PauliOp>;

    /// The operators that are still to come.
    closed spec fn view(&self) -> Seq<PauliOp> {
        self.code@.subrange(self.index as int, 64)
    }
}

impl PauliIter {
    /// The position never passes the end of the string.
    #[verifier::type_invariant]
    closed spec fn in_range(self) -> bool {
        self.index <= 64
    }

    /// The next operator, or `None` when all 64 have been returned.
    pub fn next(&mut self) -> (r: Option<PauliOp>)
        ensures
            (r, final(self)@) == iter_step(old(self)@),
    {
        proof {
            use_type_invariant(&*self);
        }
        if self.index >= 64 {
            return None;
        }
        let pauli = self.code.pauli(self.index);
        self.index = self.index + 1;
        proof {
            assert(self@ =~= old(self)@.drop_first());
        }
        pauli
    }
}

/// One step of an iteration over the operators `rest` still to come: the
/// first of them and the others, or `None` and nothing once none is left.
pub open spec fn iter_step(rest: Seq<PauliOp>) -> (Option<PauliOp>, Seq<PauliOp>) {
    if rest.len() == 0 {
        (None, rest)
    } else {
        (Some(rest[0]), rest.drop_first())
    }
}

/// What `n` successive steps of an iteration over `rest` return.
pub open spec fn iter_outputs(rest: Seq<PauliOp>, n: nat) -> Seq<Option<PauliOp>>
    decreases n,
{
    if n == 0 {
        seq![]
    } else {
        seq![iter_step(rest).0] + iter_outputs(iter_step(rest).1, (n - 1) as nat)
    }
}

/// Steps of an iteration return the operators to come in order, then `None`.
proof fn lemma_iter_outputs(rest: Seq<PauliOp>, n: nat)
    ensures
        iter_outputs(rest, n).len() == n,
        forall|i: int|
            0 <= i < n ==> #[trigger] iter_outputs(rest, n)[i] == if i < rest.len() {
                Some(rest[i])
            } else {
                None::<PauliOp>
            },
    decreases n,
{
    if n > 0 {
        let next = iter_step(rest).1;
        lemma_iter_outputs(next, (n - 1) as nat);
        assert forall|i: int| 0 <= i < n implies #[trigger] iter_outputs(rest, n)[i] == if i < rest.len() {
            Some(rest[i])
        } else {
            None::<PauliOp>
        } by {
            if i > 0 {
                assert(iter_outputs(rest, n)[i] == iter_outputs(next, (n - 1) as nat)[i - 1]);
                if 0 < i < rest.len() {
                    assert(next[i - 1] == rest[i]);
                }
            }
        }
    }
}

/// Iterating over a Pauli string returns its 64 operators, qubit 0 first, and
/// then `None` on every later call; the operators give back the string.
pub proof fn lemma_pauli_iteration(code: Pauli, n: nat)
    ensures
        iter_outputs(code@, n).len() == n,
        forall|i: int|
            0 <= i < n ==> #[trigger] iter_outputs(code@, n)[i] == if i < 64 {
                Some(code@[i])
            } else {
                None::<PauliOp>
            },
        Pauli::spec_from_ops(code@) == code@,
{
    lemma_iter_outputs(code@, n);
    assert(Pauli::spec_from_ops(code@) =~= code@);
}

/// Fields are 2-bit values.
proof fn lemma_field_small(w: u64, j: int)
    requires
        0 <= j < 32,
    ensures
        field(w, j) < 4,
{
    let s = (2 * j) as u64;
    assert((w >> s) & 3u64 < 4) by (bit_vector);
}

impl Default for Pauli {
    fn default() -> (r: Self)
        ensures
            r.spec_pack() == (0u64, 0u64),
            r@ == Seq::new(64, |i: int| PauliOp::I),
    {
        Pauli::identity()
    }
}

impl Pauli {
    /// The string with a given 128-bit index.
    pub open spec fn spec_from_index(value: u128) -> (u64, u64) {
        ((value % 0x1_0000_0000_0000_0000) as u64, (value / 0x1_0000_0000_0000_0000) as u64)
    }
}

impl From<u128> for Pauli {
    fn from(value: u128) -> (r: Self)
        ensures
            r.spec_pack() == Pauli::spec_from_index(value),
            r.spec_index() == value,
    {
        let lo = value as u64;
        let hi = (value >> 64u128) as u64;
        assert(lo == value % 0x1_0000_0000_0000_0000 && hi == value / 0x1_0000_0000_0000_0000)
            by (bit_vector)
            requires
                lo == value as u64,
                hi == (value >> 64u128) as u64,
        ;
        Pauli::new((lo, hi))
    }
}

impl vstd::std_specs::convert::FromSpecImpl<u128> for Pauli {
    open spec fn obeys_from_spec() -> bool {
        false
    }

    open spec fn from_spec(v: u128) -> Self {
        Pauli::identity_spec()
    }
}

impl Pauli {
    /// The all-identity string.
    pub closed spec fn identity_spec() -> Pauli {
        Pauli { lo: 0, hi: 0 }
    }
}

impl From<Pauli> for u128 {
    fn from(value: Pauli) -> (r: Self)
        ensures
            r == value.spec_index(),
    {
        value.index()
    }
}

impl vstd::std_specs::convert::FromSpecImpl<Pauli> for u128 {
    open spec fn obeys_from_spec() -> bool {
        true
    }

    open spec fn from_spec(v: Pauli) -> Self {
        v.spec_index() as u128
    }
}

/// Converting a string to its index and back gives the string.
pub proof fn lemma_index_roundtrip(p: Pauli, v: u128)
    ensures
        Pauli::spec_from_index(p.spec_index() as u128) == p.spec_pack(),
        (Pauli::spec_from_index(v).0 + Pauli::spec_from_index(v).1 * 0x1_0000_0000_0000_0000) == v,
{
}

/// Product of two single-qubit Pauli operators: `a * b = phase * op`.
pub open spec fn site_product(a: PauliOp, b: PauliOp) -> (Root4, PauliOp) {
    match (a, b) {
        (PauliOp::I, _) => (Root4::R0, b),
        (_, PauliOp::I) => (Root4::R0, a),
        (PauliOp::X, PauliOp::X) => (Root4::R0, PauliOp::I),
        (PauliOp::X, PauliOp::Y) => (Root4::R2, PauliOp::Z),
        (PauliOp::X, PauliOp::Z) => (Root4::R3, PauliOp::Y),
        (PauliOp::Y, PauliOp::X) => (Root4::R3, PauliOp::Z),
        (PauliOp::Y, PauliOp::Y) => (Root4::R0, PauliOp::I),
        (PauliOp::Y, PauliOp::Z) => (Root4::R2, PauliOp::X),
        (PauliOp::Z, PauliOp::X) => (Root4::R2, PauliOp::Y),
        (PauliOp::Z, PauliOp::Y) => (Root4::R3, PauliOp::X),
        (PauliOp::Z, PauliOp::Z) => (Root4::R0, PauliOp::I),
    }
}

/// The phase of the product of two Pauli strings, over their first `n` qubits.
pub open spec fn string_phase(a: Seq<PauliOp>, b: Seq<PauliOp>, n: nat) -> Root4
    decreases n,
{
    if n == 0 {
        Root4::R0
    } else {
        string_phase(a, b, (n - 1) as nat).spec_mul(site_product(a[n - 1], b[n - 1]).0)
    }
}

/// The operators of the product of two Pauli strings, qubit by qubit.
pub open spec fn string_ops(a: Seq<PauliOp>, b: Seq<PauliOp>) -> Seq<PauliOp> {
    Seq::new(64, |i: int| site_product(a[i], b[i]).1)
}

/// Single-qubit products: the operator part is the exclusive or of the codes,
/// and the product is associative up to the phases it produces.
pub proof fn lemma_site_product(a: PauliOp, b: PauliOp, c: PauliOp)
    ensures
        site_product(a, b).1 == PauliOp::spec_from_code(a.spec_code() ^ b.spec_code()),
        site_product(site_product(a, b).1, c).1 == site_product(a, site_product(b, c).1).1,
        site_product(a, b).0.spec_mul(site_product(site_product(a, b).1, c).0)
            == site_product(b, c).0.spec_mul(site_product(a, site_product(b, c).1).0),
        site_product(a, a) == (Root4::R0, PauliOp::I),
        site_product(PauliOp::I, a) == (Root4::R0, a),
        site_product(a, PauliOp::I) == (Root4::R0, a),
{
    assert(0u64 ^ 0u64 == 0u64 && 0u64 ^ 1u64 == 1u64 && 0u64 ^ 2u64 == 2u64 && 0u64 ^ 3u64 == 3u64
        && 1u64 ^ 0u64 == 1u64 && 1u64 ^ 1u64 == 0u64 && 1u64 ^ 2u64 == 3u64 && 1u64 ^ 3u64 == 2u64
        && 2u64 ^ 0u64 == 2u64 && 2u64 ^ 1u64 == 3u64 && 2u64 ^ 2u64 == 0u64 && 2u64 ^ 3u64 == 1u64
        && 3u64 ^ 0u64 == 3u64 && 3u64 ^ 1u64 == 2u64 && 3u64 ^ 2u64 == 1u64 && 3u64 ^ 3u64 == 0u64)
        by (bit_vector);
    match a {
        PauliOp::I => {},
        PauliOp::X => match b {
            PauliOp::I => {},
            PauliOp::X => {},
            PauliOp::Y => {},
            PauliOp::Z => {},
        },
        PauliOp::Y => match b {
            PauliOp::I => {},
            PauliOp::X => {},
            PauliOp::Y => {},
            PauliOp::Z => {},
        },
        PauliOp::Z => match b {
            PauliOp::I => {},
            PauliOp::X => {},
            PauliOp::Y => {},
            PauliOp::Z => {},
        },
    }
}

/// Fields of an exclusive or are exclusive ors of fields.
proof fn lemma_field_xor(a: u64, b: u64, j: int)
    requires
        0 <= j < 32,
    ensures
        field(a ^ b, j) == field(a, j) ^ field(b, j),
        field(a, j) < 4,
        field(b, j) < 4,
{
    let s = (2 * j) as u64;
    assert(((a ^ b) >> s) & 3u64 == ((a >> s) & 3u64) ^ ((b >> s) & 3u64)) by (bit_vector);
    lemma_field_small(a, j);
    lemma_field_small(b, j);
}

impl Pauli {
    /// The string whose codes are the exclusive or of the codes of two strings.
    pub closed spec fn spec_xor(self, rhs: Pauli) -> Pauli {
        Pauli { lo: self.lo ^ rhs.lo, hi: self.hi ^ rhs.hi }
    }

    /// The operators of the product of two strings are given by the exclusive or
    /// of their codes.
    pub proof fn lemma_xor_view(p: Pauli, q: Pauli)
        ensures
            p.spec_xor(q)@ == string_ops(p@, q@),
    {
        assert forall|i: int| 0 <= i < 64 implies #[trigger] p.spec_xor(q)@[i] == string_ops(p@, q@)[i] by {
            lemma_site_product(p@[i], q@[i], PauliOp::I);
            if i < 32 {
                lemma_field_xor(p.lo, q.lo, i);
                lemma_pauli_op_code(PauliOp::I, field(p.lo, i));
                lemma_pauli_op_code(PauliOp::I, field(q.lo, i));
            } else {
                lemma_field_xor(p.hi, q.hi, i - 32);
                lemma_pauli_op_code(PauliOp::I, field(p.hi, i - 32));
                lemma_pauli_op_code(PauliOp::I, field(q.hi, i - 32));
            }
        }
        assert(p.spec_xor(q)@ =~= string_ops(p@, q@));
    }

    /// The index of the product string is the exclusive or of the indices of
    /// the two strings.
    pub proof fn lemma_xor_index(p: Pauli, q: Pauli)
        ensures
            p.spec_xor(q).spec_index() == (p.spec_index() as u128) ^ (q.spec_index() as u128),
    {
        let (a, b, c, d) = (p.lo, p.hi, q.lo, q.hi);
        assert((a ^ c) + (b ^ d) * 0x1_0000_0000_0000_0000u128 == ((a + b * 0x1_0000_0000_0000_0000u128) as u128)
            ^ ((c + d * 0x1_0000_0000_0000_0000u128) as u128)) by (bit_vector);
    }

    /// The product of two Pauli strings: a phase and a string.
    pub open spec fn spec_product(self, rhs: Pauli) -> (Root4, Seq<PauliOp>) {
        (string_phase(self@, rhs@, 64), string_ops(self@, rhs@))
    }
}

/// The phase of one qubit product.
fn site_phase(a: PauliOp, b: PauliOp) -> (r: Root4)
    ensures
        r == site_product(a, b).0,
{
    match (a, b) {
        (PauliOp::I, _) => Root4::R0,
        (_, PauliOp::I) => Root4::R0,
        (PauliOp::X, PauliOp::Y) => Root4::R2,
        (PauliOp::X, PauliOp::Z) => Root4::R3,
        (PauliOp::Y, PauliOp::X) => Root4::R3,
        (PauliOp::Y, PauliOp::Z) => Root4::R2,
        (PauliOp::Z, PauliOp::X) => Root4::R2,
        (PauliOp::Z, PauliOp::Y) => Root4::R3,
        _ => Root4::R0,
    }
}

impl core::ops::Mul for Pauli {
    type Output = (Root4, Pauli);

    /// Product of Pauli strings, qubit by qubit, with the accumulated phase.
    fn mul(self, rhs: Self) -> (r: Self::Output)
        ensures
            r.0 == self.spec_product(rhs).0,
            r.1@ == self.spec_product(rhs).1,
    {
        let mut phase = Root4::R0;
        let mut i: u16 = 0;
        while i < 64
            invariant
                0 <= i <= 64,
                phase == string_phase(self@, rhs@, i as nat),
            decreases 64 - i,
        {
            let a = self.pauli(i);
            let b = rhs.pauli(i);
            match (a, b) {
                (Some(a), Some(b)) => {
                    phase = phase * site_phase(a, b);
                },
                _ => {},
            }
            i = i + 1;
        }
        let code = Pauli { lo: self.lo ^ rhs.lo, hi: self.hi ^ rhs.hi };
        proof {
            Pauli::lemma_xor_view(self, rhs);
            assert(code == self.spec_xor(rhs));
        }
        (phase, code)
    }
}

impl vstd::std_specs::ops::MulSpecImpl for Pauli {
    open spec fn obeys_mul_spec() -> bool {
        true
    }

    open spec fn mul_req(self, rhs: Pauli) -> bool {
        true
    }

    open spec fn mul_spec(self, rhs: Pauli) -> (Root4, Pauli) {
        (self.spec_product(rhs).0, self.spec_xor(rhs))
    }
}

/// Multiplying by the identity string produces no phase.
pub proof fn lemma_string_phase_identity(a: Seq<PauliOp>, n: nat)
    requires
        n <= a.len(),
        a.len() == 64,
    ensures
        string_phase(Seq::new(64, |i: int| PauliOp::I), a, n) == Root4::R0,
        string_phase(a, Seq::new(64, |i: int| PauliOp::I), n) == Root4::R0,
    decreases n,
{
    if n > 0 {
        lemma_string_phase_identity(a, (n - 1) as nat);
        lemma_site_product(a[n - 1], a[n - 1], a[n - 1]);
    }
}

/// The square of a Pauli string produces no phase.
pub proof fn lemma_string_phase_square(a: Seq<PauliOp>, n: nat)
    requires
        n <= a.len(),
    ensures
        string_phase(a, a, n) == Root4::R0,
    decreases n,
{
    if n > 0 {
        lemma_string_phase_square(a, (n - 1) as nat);
        lemma_site_product(a[n - 1], a[n - 1], a[n - 1]);
    }
}

/// The phases of products of Pauli strings are associative.
pub proof fn lemma_string_phase_assoc(a: Seq<PauliOp>, b: Seq<PauliOp>, c: Seq<PauliOp>, n: nat)
    requires
        a.len() == 64,
        b.len() == 64,
        c.len() == 64,
        n <= 64,
    ensures
        string_phase(a, b, n).spec_mul(string_phase(string_ops(a, b), c, n))
            == string_phase(b, c, n).spec_mul(string_phase(a, string_ops(b, c), n)),
    decreases n,
{
    if n > 0 {
        let m = (n - 1) as nat;
        lemma_string_phase_assoc(a, b, c, m);
        lemma_site_product(a[m as int], b[m as int], c[m as int]);
        assert(string_ops(a, b)[m as int] == site_product(a[m as int], b[m as int]).1);
        assert(string_ops(b, c)[m as int] == site_product(b[m as int], c[m as int]).1);
        lemma_root4_regroup(
            string_phase(a, b, m),
            string_phase(string_ops(a, b), c, m),
            site_product(a[m as int], b[m as int]).0,
            site_product(string_ops(a, b)[m as int], c[m as int]).0,
            string_phase(b, c, m),
            string_phase(a, string_ops(b, c), m),
            site_product(b[m as int], c[m as int]).0,
            site_product(a[m as int], string_ops(b, c)[m as int]).0,
        );
    }
}

/// Pauli strings with phases: the Pauli group on 64 qubits.
#[derive(Clone, Copy, Debug, PartialEq, Eq, Structural)]
pub struct PauliGroup(Root4, Pauli);

impl PauliGroup {
    /// The phase of the element.
    pub closed spec fn spec_phase(self) -> Root4 {
        self.0
    }

    /// The Pauli string of the element.
    pub closed spec fn spec_code(self) -> Pauli {
        self.1
    }

    /// The element with a given phase and string.
    pub closed spec fn spec_new(omega: Root4, code: Pauli) -> PauliGroup {
        PauliGroup(omega, code)
    }

    pub proof fn lemma_spec_new(omega: Root4, code: Pauli)
        ensures
            PauliGroup::spec_new(omega, code).spec_phase() == omega,
            PauliGroup::spec_new(omega, code).spec_code() == code,
    {
    }

    /// Elements are determined by their phase and string.
    pub proof fn lemma_ext(g: PauliGroup, h: PauliGroup)
        requires
            g.spec_phase() == h.spec_phase(),
            g.spec_code()@ == h.spec_code()@,
        ensures
            g == h,
    {
        Pauli::lemma_view_ext(g.1, h.1);
    }

    pub fn new(omega: Root4, code: Pauli) -> (r: Self)
        ensures
            r.spec_phase() == omega,
            r.spec_code() == code,
    {
        PauliGroup(omega, code)
    }

    /// Hermitian elements are those with a real phase: `1` or `-1`.
    pub fn is_hermitian(&self) -> (r: bool)
        ensures
            r == (self.spec_phase() == Root4::R0 || self.spec_phase() == Root4::R1),
    {
        match self.0 {
            Root4::R0 => true,
            Root4::R1 => true,
            _ => false,
        }
    }

    /// The phase and the string of the element.
    pub fn into_parts(self) -> (r: (Root4, Pauli))
        ensures
            r == (self.spec_phase(), self.spec_code()),
    {
        (self.0, self.1)
    }
}

impl From<Pauli> for PauliGroup {
    fn from(value: Pauli) -> (r: Self)
        ensures
            r.spec_phase() == Root4::R0,
            r.spec_code() == value,
    {
        PauliGroup(Root4::R0, value)
    }
}

impl vstd::std_specs::convert::FromSpecImpl<Pauli> for PauliGroup {
    open spec fn obeys_from_spec() -> bool {
        true
    }

    open spec fn from_spec(v: Pauli) -> Self {
        PauliGroup::spec_new(Root4::R0, v)
    }
}

impl From<Root4> for PauliGroup {
    fn from(value: Root4) -> (r: Self)
        ensures
            r.spec_phase() == value,
            r.spec_code()@ == Seq::new(64, |i: int| PauliOp::I),
    {
        let r = PauliGroup(value, Pauli::identity());
        proof {
            Pauli::lemma_view_ext(r.1, Pauli::identity_spec());
            assert(Pauli::identity_spec()@ =~= Seq::new(64, |i: int| PauliOp::I)) by {
                assert forall|i: int| 0 <= i < 64 implies Pauli::identity_spec().spec_op(i) == PauliOp::I by {
                    lemma_field_zero(i);
                }
            }
        }
        r
    }
}

impl vstd::std_specs::convert::FromSpecImpl<Root4> for PauliGroup {
    open spec fn obeys_from_spec() -> bool {
        true
    }

    open spec fn from_spec(v: Root4) -> Self {
        PauliGroup::spec_new(v, Pauli::identity_spec())
    }
}

impl From<PauliGroup> for (Root4, Pauli) {
    fn from(value: PauliGroup) -> (r: Self)
        ensures
            r == (value.spec_phase(), value.spec_code()),
    {
        (value.0, value.1)
    }
}

impl vstd::std_specs::convert::FromSpecImpl<PauliGroup> for (Root4, Pauli) {
    open spec fn obeys_from_spec() -> bool {
        true
    }

    open spec fn from_spec(v: PauliGroup) -> Self {
        (v.spec_phase(), v.spec_code())
    }
}

impl core::ops::Mul for PauliGroup {
    type Output = Self;

    fn mul(self, rhs: Self) -> (r: Self::Output) {
        let (omega, code) = self.1 * rhs.1;
        PauliGroup(self.0 * rhs.0 * omega, code)
    }
}

impl vstd::std_specs::ops::MulSpecImpl for PauliGroup {
    open spec fn obeys_mul_spec() -> bool {
        true
    }

    open spec fn mul_req(self, rhs: PauliGroup) -> bool {
        true
    }

    open spec fn mul_spec(self, rhs: PauliGroup) -> PauliGroup {
        self.spec_group_product(rhs)
    }
}

impl PauliGroup {
    /// The group product: phases multiply, together with the phase of the
    /// product of the strings.
    pub closed spec fn spec_group_product(self, rhs: PauliGroup) -> PauliGroup {
        PauliGroup(
            self.0.spec_mul(rhs.0).spec_mul(string_phase(self.1@, rhs.1@, 64)),
            self.1.spec_xor(rhs.1),
        )
    }

    /// The phase and the operators of a product.
    pub proof fn lemma_group_product(g: PauliGroup, h: PauliGroup)
        ensures
            g.spec_group_product(h).spec_phase() == g.spec_phase().spec_mul(h.spec_phase()).spec_mul(
                g.spec_code().spec_product(h.spec_code()).0,
            ),
            g.spec_group_product(h).spec_code()@ == g.spec_code().spec_product(h.spec_code()).1,
    {
        Pauli::lemma_xor_view(g.1, h.1);
    }
}

/// The string of a product of group elements has the exclusive or of the
/// indices of their strings as its index.
pub proof fn lemma_group_product_index(g: PauliGroup, h: PauliGroup)
    ensures
        g.spec_group_product(h).spec_code().spec_index() == (g.spec_code().spec_index() as u128) ^ (
        h.spec_code().spec_index() as u128),
{
    Pauli::lemma_xor_index(g.1, h.1);
}

impl Group for PauliGroup {
    open spec fn spec_identity() -> Self {
        PauliGroup::spec_new(Root4::R0, Pauli::identity_spec())
    }

    open spec fn spec_inverse(self) -> Self {
        PauliGroup::spec_new(self.spec_phase().spec_conj(), self.spec_code())
    }

    open spec fn spec_product(self, rhs: Self) -> Self {
        self.spec_group_product(rhs)
    }

    fn identity() -> (r: Self) {
        PauliGroup(Root4::R0, Pauli::identity())
    }

    fn inverse(self) -> (r: Self) {
        PauliGroup(self.0.conj(), self.1)
    }

    proof fn lemma_identity(a: Self) {
        let e = Pauli::identity_spec();
        assert(e@ =~= Seq::new(64, |i: int| PauliOp::I)) by {
            assert forall|i: int| 0 <= i < 64 implies e.spec_op(i) == PauliOp::I by {
                lemma_field_zero(i);
            }
        }
        lemma_string_phase_identity(a.1@, 64);
        let (x, y) = (a.1.lo, a.1.hi);
        assert(0u64 ^ x == x && x ^ 0u64 == x) by (bit_vector);
        assert(0u64 ^ y == y && y ^ 0u64 == y) by (bit_vector);
    }

    proof fn lemma_inverse(a: Self) {
        lemma_string_phase_square(a.1@, 64);
        let (x, y) = (a.1.lo, a.1.hi);
        assert(x ^ x == 0u64) by (bit_vector);
        assert(y ^ y == 0u64) by (bit_vector);
    }

    proof fn lemma_associative(a: Self, b: Self, c: Self) {
        Pauli::lemma_xor_view(a.1, b.1);
        Pauli::lemma_xor_view(b.1, c.1);
        lemma_string_phase_assoc(a.1@, b.1@, c.1@, 64);
        lemma_root4_triple(
            a.0,
            b.0,
            c.0,
            string_phase(a.1@, b.1@, 64),
            string_phase(string_ops(a.1@, b.1@), c.1@, 64),
            string_phase(b.1@, c.1@, 64),
            string_phase(a.1@, string_ops(b.1@, c.1@), 64),
        );
        let (x, y, z) = (a.1.lo, b.1.lo, c.1.lo);
        assert((x ^ y) ^ z == x ^ (y ^ z)) by (bit_vector);
        let (x, y, z) = (a.1.hi, b.1.hi, c.1.hi);
        assert((x ^ y) ^ z == x ^ (y ^ z)) by (bit_vector);
    }
}

/// The number of leading operators of a string up to and including its last
/// operator other than the identity (0 if all are identities).
pub open spec fn trimmed_len(ops: Seq<PauliOp>, n: nat) -> nat
    decreases n,
{
    if n == 0 {
        0
    } else if ops[n - 1] != PauliOp::I {
        n
    } else {
        trimmed_len(ops, (n - 1) as nat)
    }
}

proof fn lemma_trimmed_len(ops: Seq<PauliOp>, n: nat)
    ensures
        trimmed_len(ops, n) <= n,
        forall|i: int| trimmed_len(ops, n) <= i < n ==> ops[i] == PauliOp::I,
        trimmed_len(ops, n) > 0 ==> ops[trimmed_len(ops, n) - 1] != PauliOp::I,
    decreases n,
{
    if n > 0 {
        lemma_trimmed_len(ops, (n - 1) as nat);
    }
}

/// The text of a Pauli string: its operators up to the last non-identity
/// one, or `I` for the identity string.
pub open spec fn pauli_text(ops: Seq<PauliOp>) -> Seq<char> {
    let n = trimmed_len(ops, 64);
    if n == 0 {
        seq!['I']
    } else {
        Seq::new(n, |i: int| ops[i].spec_char())
    }
}

/// The operators named by a text, if each character is one of `I`, `X`, `Y`, `Z`.
pub open spec fn text_ops(text: Seq<char>) -> Seq<PauliOp> {
    Seq::new(
        text.len(),
        |i: int|
            if text[i] == 'X' {
                PauliOp::X
            } else if text[i] == 'Y' {
                PauliOp::Y
            } else if text[i] == 'Z' {
                PauliOp::Z
            } else {
                PauliOp::I
            },
    )
}

/// The characters that name Pauli operators.
pub open spec fn is_pauli_char(c: char) -> bool {
    c == 'I' || c == 'X' || c == 'Y' || c == 'Z'
}

/// A valid text of a Pauli string: 1 to 64 operator names.
pub open spec fn is_pauli_text(text: Seq<char>) -> bool {
    &&& 1 <= text.len() <= 64
    &&& forall|i: int| 0 <= i < text.len() ==> is_pauli_char(#[trigger] text[i])
}

impl Pauli {
    /// The text of the string: the operators up to the last one that is not the
    /// identity, or `I` for the identity string.
    pub fn to_string(&self) -> (r: String)
        ensures
            r@ == pauli_text(self@),
    {
        let mut n: u16 = 64;
        while n > 0
            invariant
                n <= 64,
                trimmed_len(self@, 64) == trimmed_len(self@, n as nat),
            ensures
                n <= 64,
                trimmed_len(self@, 64) == n,
            decreases n,
        {
            let op = self.pauli(n - 1);
            if op != Some(PauliOp::I) {
                break;
            }
            n = n - 1;
        }
        proof {
            lemma_trimmed_len(self@, n as nat);
        }
        let mut r = String::new();
        if n == 0 {
            push_char(&mut r, 'I');
            assert(r@ =~= seq!['I']);
        } else {
            let mut i: u16 = 0;
            while i < n
                invariant
                    0 <= i <= n <= 64,
                    trimmed_len(self@, 64) == n,
                    r@ == Seq::new(i as nat, |k: int| self@[k].spec_char()),
                decreases n - i,
            {
                match self.pauli(i) {
                    Some(op) => push_char(&mut r, op.to_char()),
                    None => {},
                }
                assert(r@ =~= Seq::new((i + 1) as nat, |k: int| self@[k].spec_char()));
                i = i + 1;
            }
        }
        r
    }

    /// Read a Pauli string from its text: 1 to 64 characters, each one of
    /// `I`, `X`, `Y`, `Z`, naming the operators from qubit 0 on.
    pub fn parse(text: &str) -> (r: Result<Pauli, Error>)
        ensures
            r is Ok <==> is_pauli_text(text@),
            r matches Ok(p) ==> p@ == Pauli::spec_from_ops(text_ops(text@)),
    {
        let n = text.unicode_len();
        if n == 0 || n > 64 {
            return Err(Error::QubitIndex { msg: String::from_str("str len out of range: 1..=64") });
        }
        let mut code = Pauli::identity();
        let mut i: usize = 0;
        while i < n
            invariant
                n == text@.len(),
                1 <= n <= 64,
                0 <= i <= n,
                forall|k: int| 0 <= k < i ==> is_pauli_char(#[trigger] text@[k]),
                forall|k: int| 0 <= k < i ==> code@[k] == text_ops(text@)[k],
                forall|k: int| i <= k < 64 ==> code@[k] == PauliOp::I,
            decreases n - i,
        {
            let c = text.get_char(i);
            match PauliOp::from_char(c) {
                Some(op) => {
                    code.set(i as u16, op);
                },
                None => {
                    return Err(
                        Error::QubitIndex {
                            msg: String::from_str("character must be one of: I, X, Y, Z"),
                        },
                    );
                },
            }
            i = i + 1;
        }
        assert(code@ =~= Pauli::spec_from_ops(text_ops(text@)));
        Ok(code)
    }
}

/// Reading back the text of a Pauli string gives the string.
pub proof fn lemma_text_roundtrip(p: Pauli)
    ensures
        is_pauli_text(pauli_text(p@)),
        Pauli::spec_from_ops(text_ops(pauli_text(p@))) == p@,
{
    lemma_trimmed_len(p@, 64);
    let t = pauli_text(p@);
    let n = trimmed_len(p@, 64);
    assert forall|i: int| 0 <= i < t.len() implies is_pauli_char(#[trigger] t[i]) by {
        if n > 0 {
            assert(t[i] == p@[i].spec_char());
        }
    }
    assert(Pauli::spec_from_ops(text_ops(t)) =~= p@) by {
        assert forall|i: int| 0 <= i < 64 implies Pauli::spec_from_ops(text_ops(t))[i] == p@[i] by {
            if i < n {
                assert(t[i] == p@[i].spec_char());
            }
        }
    }
}

impl TryFrom<u8> for PauliOp {
    type Error = Error;

    /// The operator with a code within `0..=3`.
    fn try_from(value: u8) -> (r: Result<Self, Self::Error>)
        ensures
            value < 4 ==> r == Ok::<PauliOp, Error>(PauliOp::spec_from_code(value as u64)),
            value >= 4 ==> r is Err,
    {
        match PauliOp::from_code(value as u64) {
            Some(op) => Ok(op),
            None => Err(Error::QubitIndex { msg: String::from_str("Pauli index should be within 0..=3") }),
        }
    }
}

impl vstd::std_specs::convert::TryFromSpecImpl<u8> for PauliOp {
    open spec fn obeys_try_from_spec() -> bool {
        false
    }

    open spec fn try_from_spec(v: u8) -> Result<Self, Error> {
        Ok(PauliOp::spec_from_code(v as u64))
    }
}

impl From<PauliOp> for u8 {
    /// The code of the operator.
    fn from(value: PauliOp) -> (r: Self)
        ensures
            r == value.spec_code(),
    {
        value.code() as u8
    }
}

impl vstd::std_specs::convert::FromSpecImpl<PauliOp> for u8 {
    open spec fn obeys_from_spec() -> bool {
        true
    }

    open spec fn from_spec(v: PauliOp) -> Self {
        v.spec_code() as u8
    }
}

impl TryFrom<u16> for PauliOp {
    type Error = Error;

    /// The operator with a code within `0..=3`.
    fn try_from(value: u16) -> (r: Result<Self, Self::Error>)
        ensures
            value < 4 ==> r == Ok::<PauliOp, Error>(PauliOp::spec_from_code(value as u64)),
            value >= 4 ==> r is Err,
    {
        match PauliOp::from_code(value as u64) {
            Some(op) => Ok(op),
            None => Err(Error::QubitIndex { msg: String::from_str("Pauli index should be within 0..=3") }),
        }
    }
}

impl vstd::std_specs::convert::TryFromSpecImpl<u16> for PauliOp {
    open spec fn obeys_try_from_spec() -> bool {
        false
    }

    open spec fn try_from_spec(v: u16) -> Result<Self, Error> {
        Ok(PauliOp::spec_from_code(v as u64))
    }
}

impl From<PauliOp> for u16 {
    /// The code of the operator.
    fn from(value: PauliOp) -> (r: Self)
        ensures
            r == value.spec_code(),
    {
        value.code() as u16
    }
}

impl vstd::std_specs::convert::FromSpecImpl<PauliOp> for u16 {
    open spec fn obeys_from_spec() -> bool {
        true
    }

    open spec fn from_spec(v: PauliOp) -> Self {
        v.spec_code() as u16
    }
}

impl TryFrom<u32> for PauliOp {
    type Error = Error;

    /// The operator with a code within `0..=3`.
    fn try_from(value: u32) -> (r: Result<Self, Self::Error>)
        ensures
            value < 4 ==> r == Ok::<PauliOp, Error>(PauliOp::spec_from_code(value as u64)),
            value >= 4 ==> r is Err,
    {
        match PauliOp::from_code(value as u64) {
            Some(op) => Ok(op),
            None => Err(Error::QubitIndex { msg: String::from_str("Pauli index should be within 0..=3") }),
        }
    }
}

impl vstd::std_specs::convert::TryFromSpecImpl<u32> for PauliOp {
    open spec fn obeys_try_from_spec() -> bool {
        false
    }

    open spec fn try_from_spec(v: u32) -> Result<Self, Error> {
        Ok(PauliOp::spec_from_code(v as u64))
    }
}

impl From<PauliOp> for u32 {
    /// The code of the operator.
    fn from(value: PauliOp) -> (r: Self)
        ensures
            r == value.spec_code(),
    {
        value.code() as u32
    }
}

impl vstd::std_specs::convert::FromSpecImpl<PauliOp> for u32 {
    open spec fn obeys_from_spec() -> bool {
        true
    }

    open spec fn from_spec(v: PauliOp) -> Self {
        v.spec_code() as u32
    }
}

impl TryFrom<u64> for PauliOp {
    type Error = Error;

    /// The operator with a code within `0..=3`.
    fn try_from(value: u64) -> (r: Result<Self, Self::Error>)
        ensures
            value < 4 ==> r == Ok::<PauliOp, Error>(PauliOp::spec_from_code(value as u64)),
            value >= 4 ==> r is Err,
    {
        match PauliOp::from_code(value as u64) {
            Some(op) => Ok(op),
            None => Err(Error::QubitIndex { msg: String::from_str("Pauli index should be within 0..=3") }),
        }
    }
}

impl vstd::std_specs::convert::TryFromSpecImpl<u64> for PauliOp {
    open spec fn obeys_try_from_spec() -> bool {
        false
    }

    open spec fn try_from_spec(v: u64) -> Result<Self, Error> {
        Ok(PauliOp::spec_from_code(v as u64))
    }
}

impl From<PauliOp> for u64 {
    /// The code of the operator.
    fn from(value: PauliOp) -> (r: Self)
        ensures
            r == value.spec_code(),
    {
        value.code() as u64
    }
}

impl vstd::std_specs::convert::FromSpecImpl<PauliOp> for u64 {
    open spec fn obeys_from_spec() -> bool {
        true
    }

    open spec fn from_spec(v: PauliOp) -> Self {
        v.spec_code() as u64
    }
}

impl From<PauliOp> for String {
    /// The one-letter name of the operator.
    fn from(value: PauliOp) -> (r: Self)
        ensures
            r@ == seq![value.spec_char()],
    {
        let mut r = String::new();
        push_char(&mut r, value.to_char());
        assert(r@ =~= seq![value.spec_char()]);
        r
    }
}

impl vstd::std_specs::convert::FromSpecImpl<PauliOp> for String {
    open spec fn obeys_from_spec() -> bool {
        false
    }

    open spec fn from_spec(v: PauliOp) -> Self {
        arbitrary()
    }
}

impl PauliOp {
    /// The one-letter name of the operator, as a string.
    pub fn to_string(&self) -> (r: String)
        ensures
            r@ == seq![self.spec_char()],
    {
        String::from(*self)
    }
}

impl Code for Pauli {
    open spec fn code_valid(self) -> bool {
        true
    }

    open spec fn code_key(self) -> u128 {
        self.spec_index() as u128
    }

    fn key(&self) -> (k: u128) {
        self.index()
    }

    proof fn lemma_key_injective(a: Self, b: Self) {
        lemma_index_roundtrip(a, 0);
        lemma_index_roundtrip(b, 0);
        Pauli::lemma_pack_ext(a, b);
    }
}

} // verus!
