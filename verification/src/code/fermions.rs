//! Second quantization: orbitals, creation and annihilation operators, and
//! fermionic terms in canonical order.
use vstd::prelude::*;
use vstd::string::*;
use crate::Error;
use crate::code::Code;
use crate::text::{decimal, push_char, push_decimal, push_str};

verus! {

/// Spin one-half
#[derive(Clone, Copy, Debug, Eq, Hash, PartialEq, Structural)]
pub enum Spin {
    Down,
    Up,
}

impl Spin {
    /// The spin number: 0 for down, 1 for up.
    pub open spec fn spec_number(self) -> int {
        match self {
            Spin::Down => 0,
            Spin::Up => 1,
        }
    }

    /// True if spin up.
    pub fn is_up(&self) -> (r: bool)
        ensures
            r == (*self == Spin::Up),
    {
        match self {
            Spin::Down => false,
            Spin::Up => true,
        }
    }

    /// The opposite spin.
    pub open spec fn spec_flip(self) -> Spin {
        match self {
            Spin::Down => Spin::Up,
            Spin::Up => Spin::Down,
        }
    }

    /// Flip the spin to its opposite.
    pub fn flip(&self) -> (r: Self)
        ensures
            r == self.spec_flip(),
    {
        match self {
            Spin::Down => Spin::Up,
            Spin::Up => Spin::Down,
        }
    }

    /// Both configurations: down and then up.
    pub fn both() -> (r: Vec<Self>)
        ensures
            r@ == seq![Spin::Down, Spin::Up],
    {
        let mut r = Vec::new();
        r.push(Spin::Down);
        r.push(Spin::Up);
        assert(r@ =~= seq![Spin::Down, Spin::Up]);
        r
    }
}

/// Flipping a spin gives the other spin, and flipping twice gives the spin
/// back.
pub proof fn lemma_flip_involutive(s: Spin)
    ensures
        s.spec_flip() != s,
        s.spec_flip().spec_flip() == s,
{
}

impl Default for Spin {
    fn default() -> (r: Self)
        ensures
            r == Spin::Down,
    {
        Spin::Down
    }
}

impl From<bool> for Spin {
    /// Spin up for `true`, down for `false`.
    fn from(value: bool) -> (r: Self)
        ensures
            r == (if value { Spin::Up } else { Spin::Down }),
    {
        if value {
            Spin::Up
        } else {
            Spin::Down
        }
    }
}

impl vstd::std_specs::convert::FromSpecImpl<bool> for Spin {
    open spec fn obeys_from_spec() -> bool {
        true
    }

    open spec fn from_spec(v: bool) -> Self {
        if v {
            Spin::Up
        } else {
            Spin::Down
        }
    }
}

impl From<Spin> for u8 {
    /// The spin number: 0 for down, 1 for up.
    fn from(value: Spin) -> (r: Self)
        ensures
            r == value.spec_number(),
    {
        match value {
            Spin::Down => 0,
            Spin::Up => 1,
        }
    }
}

impl vstd::std_specs::convert::FromSpecImpl<Spin> for u8 {
    open spec fn obeys_from_spec() -> bool {
        true
    }

    open spec fn from_spec(v: Spin) -> Self {
        v.spec_number() as u8
    }
}

impl From<Spin> for u16 {
    /// The spin number: 0 for down, 1 for up.
    fn from(value: Spin) -> (r: Self)
        ensures
            r == value.spec_number(),
    {
        match value {
            Spin::Down => 0,
            Spin::Up => 1,
        }
    }
}

impl vstd::std_specs::convert::FromSpecImpl<Spin> for u16 {
    open spec fn obeys_from_spec() -> bool {
        true
    }

    open spec fn from_spec(v: Spin) -> Self {
        v.spec_number() as u16
    }
}

impl From<Spin> for u32 {
    /// The spin number: 0 for down, 1 for up.
    fn from(value: Spin) -> (r: Self)
        ensures
            r == value.spec_number(),
    {
        match value {
            Spin::Down => 0,
            Spin::Up => 1,
        }
    }
}

impl vstd::std_specs::convert::FromSpecImpl<Spin> for u32 {
    open spec fn obeys_from_spec() -> bool {
        true
    }

    open spec fn from_spec(v: Spin) -> Self {
        v.spec_number() as u32
    }
}

impl From<Spin> for u64 {
    /// The spin number: 0 for down, 1 for up.
    fn from(value: Spin) -> (r: Self)
        ensures
            r == value.spec_number(),
    {
        match value {
            Spin::Down => 0,
            Spin::Up => 1,
        }
    }
}

impl vstd::std_specs::convert::FromSpecImpl<Spin> for u64 {
    open spec fn obeys_from_spec() -> bool {
        true
    }

    open spec fn from_spec(v: Spin) -> Self {
        v.spec_number() as u64
    }
}

/// Electronic orbital consisting of a principal quantum number and a spin 1/2.
#[derive(Clone, Copy, Debug, Hash, PartialEq, Eq, Structural)]
pub struct Orbital {
    pub n: u32,
    pub s: Spin,
}

impl Orbital {
    /// The orbital index `2 * n + s`.
    pub open spec fn spec_index(self) -> int {
        2 * self.n + self.s.spec_number()
    }

    /// The orbital index fits into `u32`, the bound under which `index` computes it.
    pub open spec fn valid(self) -> bool {
        self.n <= u32::MAX / 2 - self.s.spec_number()
    }

    /// The orbital with a given index.
    pub open spec fn spec_with_index(index: int) -> Orbital {
        Orbital { n: (index / 2) as u32, s: if index % 2 == 1 { Spin::Up } else { Spin::Down } }
    }

    /// Create a new orbital.
    pub fn new(n: u32, s: Spin) -> (r: Self)
        ensures
            r == (Orbital { n, s }),
    {
        Orbital { n, s }
    }

    /// Compute orbital index: `2 * n + s`, where `s = 0` for `Spin::Down` and
    /// `s = 1` for `Spin::Up`.
    pub fn index(&self) -> (r: u32)
        requires
            self.valid(),
        ensures
            r == self.spec_index(),
            r < u32::MAX,
    {
        let s: u32 = match self.s {
            Spin::Down => 0,
            Spin::Up => 1,
        };
        self.n * 2 + s
    }

    /// Return orbital corresponding to the given index.
    pub fn with_index(index: u32) -> (r: Self)
        ensures
            r == Orbital::spec_with_index(index as int),
            index < u32::MAX ==> r.valid() && r.spec_index() == index,
    {
        let odd = index & 1 != 0;
        assert(odd == (index % 2 == 1)) by (bit_vector)
            requires
                odd == (index & 1 != 0),
        ;
        Orbital::new(index / 2, Spin::from(odd))
    }

    /// Orbitals with indices in the given range, in increasing order.
    pub fn gen_range(range: core::ops::Range<u32>) -> (r: Vec<Orbital>)
        ensures
            r@ == Seq::new(
                if range.start < range.end { (range.end - range.start) as nat } else { 0 },
                |i: int| Orbital::spec_with_index(range.start + i),
            ),
    {
        let mut r: Vec<Orbital> = Vec::new();
        let mut i: u32 = range.start;
        if range.start < range.end {
            while i < range.end
                invariant
                    range.start <= i <= range.end,
                    r@ == Seq::new((i - range.start) as nat, |k: int| Orbital::spec_with_index(range.start + k)),
                decreases range.end - i,
            {
                r.push(Orbital::with_index(i));
                assert(r@ =~= Seq::new((i + 1 - range.start) as nat, |k: int| Orbital::spec_with_index(range.start + k)));
                i = i + 1;
            }
        }
        assert(r@ =~= Seq::new(
            if range.start < range.end { (range.end - range.start) as nat } else { 0 },
            |i: int| Orbital::spec_with_index(range.start + i),
        ));
        r
    }
}

/// The index of an orbital maps back to the orbital, and indices below
/// `u32::MAX` map to orbitals with that index.
pub proof fn lemma_orbital_index(o: Orbital, index: u32)
    ensures
        o.valid() ==> Orbital::spec_with_index(o.spec_index()) == o,
        index < u32::MAX ==> Orbital::spec_with_index(index as int).valid(),
        index < u32::MAX ==> Orbital::spec_with_index(index as int).spec_index() == index,
{
}

/// Valid orbitals are determined by their index.
pub proof fn lemma_orbital_index_injective(a: Orbital, b: Orbital)
    requires
        a.valid(),
        b.valid(),
        a.spec_index() == b.spec_index(),
    ensures
        a == b,
{
    lemma_orbital_index(a, 0);
    lemma_orbital_index(b, 0);
}

impl Default for Orbital {
    fn default() -> (r: Self)
        ensures
            r == (Orbital { n: 0, s: Spin::Down }),
    {
        Orbital { n: 0, s: Spin::Down }
    }
}

/// Creation operator
#[derive(Copy, Clone, Debug, PartialEq, Eq, Hash, Structural)]
pub struct Cr(pub Orbital);

impl Cr {
    /// Orbital index.
    pub fn index(&self) -> (r: u32)
        requires
            self.0.valid(),
        ensures
            r == self.0.spec_index(),
    {
        self.0.index()
    }
}

/// Annihilation operator
#[derive(Copy, Clone, Debug, PartialEq, Eq, Hash, Structural)]
pub struct An(pub Orbital);

impl An {
    /// Orbital index.
    pub fn index(&self) -> (r: u32)
        requires
            self.0.valid(),
        ensures
            r == self.0.spec_index(),
    {
        self.0.index()
    }
}

/// Electronic integral with creation (cr) and annihilation (an) operators.
///
/// Terms built by `one_electron` and `two_electron` are in canonical order:
/// for one-electron terms `p <= q`; for two-electron terms `p < q`, `r > s`
/// and `p <= s`, where `p, q` index the creation and `r, s` the
/// annihilation operators.
#[derive(Clone, Copy, Debug, Eq, Hash, PartialEq)]
#[allow(inconsistent_fields)]
pub enum Fermions {
    Offset,
    One { cr: Cr, an: An },
    Two { cr: (Cr, Cr), an: (An, An) },
}

/// Canonical order of the orbital indices of a one-electron term.
pub open spec fn one_canonical(p: int, q: int) -> bool {
    p <= q
}

/// Canonical order of the orbital indices of a two-electron term.
pub open spec fn two_canonical(p: int, q: int, r: int, s: int) -> bool {
    p < q && r > s && p <= s
}

/// A term in canonical order never creates or annihilates one orbital twice
/// (`a†_p a†_p = 0`): a two-electron term `(p, q, r, s)` has `p < q` and
/// `s < r`, with `p <= s`; a one-electron term `(p, q)` has `p <= q`.
pub proof fn lemma_canonical_order(f: Fermions)
    requires
        f.canonical(),
    ensures
        f is One ==> f.spec_indices()[0] <= f.spec_indices()[1],
        f is Two ==> f.spec_indices()[0] < f.spec_indices()[1] && f.spec_indices()[3] < f.spec_indices()[2]
            && f.spec_indices()[0] <= f.spec_indices()[3],
{
}

impl Fermions {
    /// All orbitals of the term have an index that fits into `u32`.
    pub open spec fn valid(self) -> bool {
        match self {
            Fermions::Offset => true,
            Fermions::One { cr, an } => cr.0.valid() && an.0.valid(),
            Fermions::Two { cr, an } => cr.0.0.valid() && cr.1.0.valid() && an.0.0.valid()
                && an.1.0.valid(),
        }
    }

    /// The orbital indices of the term, creation operators first.
    pub open spec fn spec_indices(self) -> Seq<int> {
        match self {
            Fermions::Offset => seq![],
            Fermions::One { cr, an } => seq![cr.0.spec_index(), an.0.spec_index()],
            Fermions::Two { cr, an } => seq![
                cr.0.0.spec_index(),
                cr.1.0.spec_index(),
                an.0.0.spec_index(),
                an.1.0.spec_index(),
            ],
        }
    }

    /// The term is in canonical order.
    pub open spec fn canonical(self) -> bool {
        match self {
            Fermions::Offset => true,
            Fermions::One { cr, an } => one_canonical(cr.0.spec_index(), an.0.spec_index()),
            Fermions::Two { cr, an } => two_canonical(
                cr.0.0.spec_index(),
                cr.1.0.spec_index(),
                an.0.0.spec_index(),
                an.1.0.spec_index(),
            ),
        }
    }

    /// Create Integral as constant offset.
    pub fn new() -> (r: Fermions)
        ensures
            r == Fermions::Offset,
    {
        Fermions::Offset
    }

    /// Create a one-electron integral, if the orbitals are in canonical order:
    /// `cr.index() <= an.index()`.
    pub fn one_electron(cr: Cr, an: An) -> (r: Option<Self>)
        requires
            cr.0.valid(),
            an.0.valid(),
        ensures
            one_canonical(cr.0.spec_index(), an.0.spec_index()) ==> r == Some(Fermions::One { cr, an }),
            !one_canonical(cr.0.spec_index(), an.0.spec_index()) ==> r is None,
    {
        if cr.index() <= an.index() {
            Some(Fermions::One { cr, an })
        } else {
            None
        }
    }

    /// Create a two-electron integral, if the orbitals are in canonical order:
    /// `cr.0.index() < cr.1.index()`, `an.0.index() > an.1.index()` and
    /// `cr.0.index() <= an.1.index()`.
    pub fn two_electron(cr: (Cr, Cr), an: (An, An)) -> (r: Option<Self>)
        requires
            cr.0.0.valid(),
            cr.1.0.valid(),
            an.0.0.valid(),
            an.1.0.valid(),
        ensures
            two_canonical(cr.0.0.spec_index(), cr.1.0.spec_index(), an.0.0.spec_index(), an.1.0.spec_index())
                ==> r == Some(Fermions::Two { cr, an }),
            !two_canonical(cr.0.0.spec_index(), cr.1.0.spec_index(), an.0.0.spec_index(), an.1.0.spec_index())
                ==> r is None,
    {
        if cr.0.index() < cr.1.index() && an.0.index() > an.1.index() && cr.0.index() <= an.1.index() {
            Some(Fermions::Two { cr, an })
        } else {
            None
        }
    }
}

impl Default for Fermions {
    fn default() -> (r: Self)
        ensures
            r == Fermions::Offset,
    {
        Fermions::Offset
    }
}

impl From<()> for Fermions {
    fn from(value: ()) -> (r: Self)
        ensures
            r == Fermions::Offset,
    {
        Fermions::Offset
    }
}

impl vstd::std_specs::convert::FromSpecImpl<()> for Fermions {
    open spec fn obeys_from_spec() -> bool {
        true
    }

    open spec fn from_spec(v: ()) -> Self {
        Fermions::Offset
    }
}

impl TryFrom<(u32, u32)> for Fermions {
    type Error = Error;

    /// The one-electron term with the orbital indices `(p, q)`, if `p <= q`.
    fn try_from(value: (u32, u32)) -> (r: Result<Self, Self::Error>)
        ensures
            value.0 <= value.1 ==> r == Ok::<Fermions, Error>(
                Fermions::One {
                    cr: Cr(Orbital::spec_with_index(value.0 as int)),
                    an: An(Orbital::spec_with_index(value.1 as int)),
                },
            ),
            value.0 > value.1 ==> r is Err,
    {
        let cr = Cr(Orbital::with_index(value.0));
        let an = An(Orbital::with_index(value.1));
        if value.0 <= value.1 {
            Ok(Fermions::One { cr, an })
        } else {
            Err(Error::QubitIndex { msg: String::from_str("one-electron term orbital ordering") })
        }
    }
}

impl vstd::std_specs::convert::TryFromSpecImpl<(u32, u32)> for Fermions {
    open spec fn obeys_try_from_spec() -> bool {
        false
    }

    open spec fn try_from_spec(v: (u32, u32)) -> Result<Self, Error> {
        Ok(Fermions::Offset)
    }
}

impl TryFrom<(u32, u32, u32, u32)> for Fermions {
    type Error = Error;

    /// The two-electron term with the orbital indices `(p, q, r, s)`, if they
    /// are in canonical order.
    fn try_from(value: (u32, u32, u32, u32)) -> (r: Result<Self, Self::Error>)
        ensures
            two_canonical(value.0 as int, value.1 as int, value.2 as int, value.3 as int) ==> r
                == Ok::<Fermions, Error>(
                Fermions::Two {
                    cr: (
                        Cr(Orbital::spec_with_index(value.0 as int)),
                        Cr(Orbital::spec_with_index(value.1 as int)),
                    ),
                    an: (
                        An(Orbital::spec_with_index(value.2 as int)),
                        An(Orbital::spec_with_index(value.3 as int)),
                    ),
                },
            ),
            !two_canonical(value.0 as int, value.1 as int, value.2 as int, value.3 as int) ==> r is Err,
    {
        let cr = (Cr(Orbital::with_index(value.0)), Cr(Orbital::with_index(value.1)));
        let an = (An(Orbital::with_index(value.2)), An(Orbital::with_index(value.3)));
        if value.0 < value.1 && value.2 > value.3 && value.0 <= value.3 {
            Ok(Fermions::Two { cr, an })
        } else {
            Err(Error::QubitIndex { msg: String::from_str("two-electron term orbital ordering") })
        }
    }
}

impl vstd::std_specs::convert::TryFromSpecImpl<(u32, u32, u32, u32)> for Fermions {
    open spec fn obeys_try_from_spec() -> bool {
        false
    }

    open spec fn try_from_spec(v: (u32, u32, u32, u32)) -> Result<Self, Error> {
        Ok(Fermions::Offset)
    }
}

/// The text of a list of orbital indices: `[]`, `[p, q]`, `[p, q, r, s]`.
pub open spec fn index_list_text(indices: Seq<int>) -> Seq<char>
    decreases indices.len(),
{
    if indices.len() == 0 {
        seq!['[', ']']
    } else {
        seq!['['] + index_items_text(indices) + seq![']']
    }
}

/// The indices separated by `, `.
pub open spec fn index_items_text(indices: Seq<int>) -> Seq<char>
    decreases indices.len(),
{
    if indices.len() <= 1 {
        if indices.len() == 0 { seq![] } else { decimal(indices[0] as nat) }
    } else {
        index_items_text(indices.drop_last()) + seq![',', ' '] + decimal(indices.last() as nat)
    }
}

impl Fermions {
    /// The orbital indices of the term: none for the offset, two for
    /// one-electron terms, four for two-electron terms.
    pub fn indices(&self) -> (r: Vec<u32>)
        requires
            self.valid(),
        ensures
            r@.map_values(|i: u32| i as int) == self.spec_indices(),
    {
        let mut r = Vec::new();
        match self {
            Fermions::Offset => {},
            Fermions::One { cr, an } => {
                r.push(cr.index());
                r.push(an.index());
            },
            Fermions::Two { cr, an } => {
                r.push(cr.0.index());
                r.push(cr.1.index());
                r.push(an.0.index());
                r.push(an.1.index());
            },
        }
        assert(r@.map_values(|i: u32| i as int) =~= self.spec_indices());
        r
    }

    /// The term with the given orbital indices: none for the offset, two for a
    /// one-electron term and four for a two-electron term, in canonical order.
    pub fn from_indices(indices: &[u32]) -> (r: Result<Fermions, Error>)
        ensures
            r is Ok <==> (indices@.len() == 0 || (indices@.len() == 2 && one_canonical(
                indices@[0] as int,
                indices@[1] as int,
            )) || (indices@.len() == 4 && two_canonical(
                indices@[0] as int,
                indices@[1] as int,
                indices@[2] as int,
                indices@[3] as int,
            ))),
            r matches Ok(f) ==> f.spec_indices() == indices@.map_values(|i: u32| i as int) && f.canonical()
                && (f.valid() <==> forall|i: int| 0 <= i < indices@.len() ==> indices@[i] < u32::MAX),
    {
        let n = indices.len();
        if n == 0 {
            assert(indices@.map_values(|i: u32| i as int) =~= seq![]);
            Ok(Fermions::Offset)
        } else if n == 2 {
            let (p, q) = (indices[0], indices[1]);
            if p <= q {
                let f = Fermions::One { cr: Cr(Orbital::with_index(p)), an: An(Orbital::with_index(q)) };
                assert(f.spec_indices() =~= indices@.map_values(|i: u32| i as int));
                Ok(f)
            } else {
                Err(Error::QubitIndex { msg: String::from_str("cannot parse one-electron term") })
            }
        } else if n == 4 {
            let (p, q, r, s) = (indices[0], indices[1], indices[2], indices[3]);
            if p < q && r > s && p <= s {
                let f = Fermions::Two {
                    cr: (Cr(Orbital::with_index(p)), Cr(Orbital::with_index(q))),
                    an: (An(Orbital::with_index(r)), An(Orbital::with_index(s))),
                };
                assert(f.spec_indices() =~= indices@.map_values(|i: u32| i as int));
                Ok(f)
            } else {
                Err(Error::QubitIndex { msg: String::from_str("cannot parse two-electron term") })
            }
        } else {
            Err(Error::QubitIndex { msg: String::from_str("cannot parse sequence") })
        }
    }

    /// The text of the term: its orbital indices, e.g. `[1, 2, 5, 4]`.
    pub fn to_string(&self) -> (r: String)
        requires
            self.valid(),
        ensures
            r@ == index_list_text(self.spec_indices()),
    {
        let indices = self.indices();
        let mut r = String::new();
        push_char(&mut r, '[');
        let mut i: usize = 0;
        let ghost idx = self.spec_indices();
        while i < indices.len()
            invariant
                0 <= i <= indices@.len(),
                indices@.map_values(|k: u32| k as int) == idx,
                indices@.len() == idx.len(),
                r@ == seq!['['] + index_items_text(idx.subrange(0, i as int)),
            decreases indices@.len() - i,
        {
            if i > 0 {
                push_str(&mut r, ", ");
                proof {
                    reveal_strlit(", ");
                }
            }
            push_decimal(&mut r, indices[i]);
            proof {
                let sub = idx.subrange(0, i + 1);
                assert(sub.drop_last() =~= idx.subrange(0, i as int));
                assert(sub.last() == indices@[i as int] as int);
                if i == 0 {
                    assert(index_items_text(sub) == decimal(indices@[0] as nat));
                    assert(index_items_text(idx.subrange(0, 0)) =~= seq![]);
                }
                assert(r@ =~= seq!['['] + index_items_text(sub));
            }
            i = i + 1;
        }
        push_char(&mut r, ']');
        proof {
            assert(idx.subrange(0, indices@.len() as int) =~= idx);
            if idx.len() == 0 {
                assert(index_items_text(idx) =~= seq![]);
            }
            assert(r@ =~= index_list_text(idx));
        }
        r
    }
}

/// The orbital indices of a valid term in canonical order are accepted by
/// `from_indices`, and determine the term: a valid term with the same indices
/// is the same term.
pub proof fn lemma_indices_roundtrip(f: Fermions, g: Fermions)
    requires
        f.valid(),
        f.canonical(),
    ensures
        f.spec_indices().len() == 0 || (f.spec_indices().len() == 2 && one_canonical(
            f.spec_indices()[0],
            f.spec_indices()[1],
        )) || (f.spec_indices().len() == 4 && two_canonical(
            f.spec_indices()[0],
            f.spec_indices()[1],
            f.spec_indices()[2],
            f.spec_indices()[3],
        )),
        forall|i: int| 0 <= i < f.spec_indices().len() ==> 0 <= #[trigger] f.spec_indices()[i] < u32::MAX,
        g.valid() && g.spec_indices() == f.spec_indices() ==> g == f,
{
    match f {
        Fermions::Offset => {},
        Fermions::One { cr, an } => {
            lemma_orbital_index(cr.0, 0);
            lemma_orbital_index(an.0, 0);
        },
        Fermions::Two { cr, an } => {
            lemma_orbital_index(cr.0.0, 0);
            lemma_orbital_index(cr.1.0, 0);
            lemma_orbital_index(an.0.0, 0);
            lemma_orbital_index(an.1.0, 0);
        },
    }
    if g.valid() && g.spec_indices() == f.spec_indices() {
        assert(g.spec_indices().len() == f.spec_indices().len());
        match (f, g) {
            (Fermions::Offset, Fermions::Offset) => {},
            (Fermions::One { .. }, Fermions::One { .. }) => {
                assert(g.spec_indices()[0] == f.spec_indices()[0]);
                assert(g.spec_indices()[1] == f.spec_indices()[1]);
            },
            (Fermions::Two { .. }, Fermions::Two { .. }) => {
                assert(g.spec_indices()[0] == f.spec_indices()[0]);
                assert(g.spec_indices()[1] == f.spec_indices()[1]);
                assert(g.spec_indices()[2] == f.spec_indices()[2]);
                assert(g.spec_indices()[3] == f.spec_indices()[3]);
            },
            _ => {},
        }
        assert(g.key_slots() == f.key_slots());
        assert(g.code_key() == f.code_key());
        Fermions::lemma_key_injective(f, g);
    }
}


/// Four 32-bit slots of a 128-bit key, lowest first.
pub open spec fn pack_slots(a: u32, b: u32, c: u32, d: u32) -> u128 {
    (a as u128) | ((b as u128) << 32u128) | ((c as u128) << 64u128) | ((d as u128) << 96u128)
}

proof fn lemma_pack_slots(a: u32, b: u32, c: u32, d: u32, k: u128)
    by (bit_vector)
    requires
        k == (a as u128) | ((b as u128) << 32u128) | ((c as u128) << 64u128) | ((d as u128) << 96u128),
    ensures
        k as u32 == a,
        (k >> 32u128) as u32 == b,
        (k >> 64u128) as u32 == c,
        (k >> 96u128) as u32 == d,
{
}

fn pack(a: u32, b: u32, c: u32, d: u32) -> (k: u128)
    ensures
        k == pack_slots(a, b, c, d),
{
    (a as u128) | ((b as u128) << 32u128) | ((c as u128) << 64u128) | ((d as u128) << 96u128)
}

impl Fermions {
    /// The four key slots of the term: the orbital indices, with `u32::MAX`
    /// (which is no valid orbital index) for the missing ones.
    pub open spec fn key_slots(self) -> (u32, u32, u32, u32) {
        match self {
            Fermions::Offset => (u32::MAX, u32::MAX, u32::MAX, u32::MAX),
            Fermions::One { cr, an } => (cr.0.spec_index() as u32, an.0.spec_index() as u32, u32::MAX, u32::MAX),
            Fermions::Two { cr, an } => (
                cr.0.0.spec_index() as u32,
                cr.1.0.spec_index() as u32,
                an.0.0.spec_index() as u32,
                an.1.0.spec_index() as u32,
            ),
        }
    }
}

impl Code for Fermions {
    open spec fn code_valid(self) -> bool {
        self.valid()
    }

    open spec fn code_key(self) -> u128 {
        let s = self.key_slots();
        pack_slots(s.0, s.1, s.2, s.3)
    }

    fn key(&self) -> (k: u128) {
        match self {
            Fermions::Offset => pack(u32::MAX, u32::MAX, u32::MAX, u32::MAX),
            Fermions::One { cr, an } => pack(cr.index(), an.index(), u32::MAX, u32::MAX),
            Fermions::Two { cr, an } => pack(cr.0.index(), cr.1.index(), an.0.index(), an.1.index()),
        }
    }

    proof fn lemma_key_injective(a: Self, b: Self) {
        let sa = a.key_slots();
        let sb = b.key_slots();
        lemma_pack_slots(sa.0, sa.1, sa.2, sa.3, a.code_key());
        lemma_pack_slots(sb.0, sb.1, sb.2, sb.3, b.code_key());
        match a {
            Fermions::Offset => {},
            Fermions::One { cr, an } => {
                lemma_orbital_index(cr.0, 0);
                lemma_orbital_index(an.0, 0);
            },
            Fermions::Two { cr, an } => {
                lemma_orbital_index(cr.0.0, 0);
                lemma_orbital_index(cr.1.0, 0);
                lemma_orbital_index(an.0.0, 0);
                lemma_orbital_index(an.1.0, 0);
            },
        }
        match b {
            Fermions::Offset => {},
            Fermions::One { cr, an } => {
                lemma_orbital_index(cr.0, 0);
                lemma_orbital_index(an.0, 0);
            },
            Fermions::Two { cr, an } => {
                lemma_orbital_index(cr.0.0, 0);
                lemma_orbital_index(cr.1.0, 0);
                lemma_orbital_index(an.0.0, 0);
                lemma_orbital_index(an.1.0, 0);
            },
        }
    }
}

} // verus!
