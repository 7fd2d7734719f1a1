//! Representation of Hamiltonian sum terms.
use vstd::prelude::*;
use std::collections::HashMap;
use crate::code::Code;
use crate::Error;
use vstd::std_specs::ops::AddSpec;
use vstd::std_specs::hash::spec_hash_map_iter;
use vstd::std_specs::iter::IteratorSpec;

verus! {

broadcast use vstd::std_specs::hash::group_hash_axioms;

/// Weighted sum of codes: each code with its coefficient.
#[derive(Debug)]
pub struct SumRepr<T, K: Code> {
    terms: HashMap<u128, (K, T)>,
    /// The capacity that `with_capacity` was asked for, while no term has
    /// been set since; zero otherwise.
    requested: usize,
}

impl<T, K: Code> View for SumRepr<T, K> {
    type V = Map<K, T>;

    /// The coefficient of each code in the sum.
    closed spec fn view(&self) -> Map<K, T> {
        Map::new(
            |c: K| c.code_valid() && self.terms@.contains_key(c.code_key()),
            |c: K| self.terms@[c.code_key()].1,
        )
    }
}

impl<T, K: Code> SumRepr<T, K> {
    /// Each entry is stored under the key of its code.
    #[verifier::type_invariant]
    closed spec fn wf(self) -> bool {
        forall|k: u128| #[trigger] self.terms@.contains_key(k) ==> self.terms@[k].0.code_valid()
            && self.terms@[k].0.code_key() == k
    }

    /// Every code of the sum is valid.
    pub proof fn lemma_codes_valid(&self, c: K)
        ensures
            self@.contains_key(c) ==> c.code_valid(),
    {
    }

    /// Create new, empty sum.
    pub fn new() -> (r: Self)
        ensures
            r@ == Map::<K, T>::empty(),
            r.requested() == 0,
    {
        let r = SumRepr { terms: HashMap::new(), requested: 0 };
        assert(r@ =~= Map::<K, T>::empty());
        r
    }

    /// The capacity that the sum was created with by `with_capacity`, while
    /// no term has been set since; zero otherwise.
    pub closed spec fn requested(&self) -> nat {
        self.requested as nat
    }

    /// Creates an empty sum with at least the specified capacity.
    pub fn with_capacity(capacity: usize) -> (r: Self)
        ensures
            r@ == Map::<K, T>::empty(),
            r.requested() == capacity,
    {
        let r = SumRepr { terms: HashMap::with_capacity(capacity), requested: capacity };
        assert(r@ =~= Map::<K, T>::empty());
        r
    }

    proof fn lemma_len(&self)
        requires
            self.wf(),
        ensures
            self@.dom().finite(),
            self@.dom().len() == self.terms@.len(),
    {
        let f = |k: u128| self.terms@[k].0;
        assert(self.terms@.dom().map(f) =~= self@.dom()) by {
            assert forall|c: K| self@.dom().contains(c) implies #[trigger] self.terms@.dom().map(f).contains(c) by {
                K::lemma_key_injective(c, self.terms@[c.code_key()].0);
                assert(f(c.code_key()) == c);
            }
        }
        assert(vstd::relations::injective_on(f, self.terms@.dom()));
        vstd::set_lib::lemma_map_size(self.terms@.dom(), self@.dom(), f);
    }

    /// Number of terms in the sum.
    pub fn len(&self) -> (r: usize)
        ensures
            self@.dom().finite(),
            r == self@.dom().len(),
    {
        proof {
            use_type_invariant(self);
            self.lemma_len();
        }
        self.terms.len()
    }

    /// The sum has no terms.
    pub fn is_empty(&self) -> (r: bool)
        ensures
            self@.dom().finite(),
            r == (self@.dom().len() == 0),
    {
        proof {
            use_type_invariant(self);
            self.lemma_len();
        }
        self.terms.len() == 0
    }
}

/// `v` is a value that `T::default()` returns.
pub open spec fn is_default<T: Default>(v: T) -> bool {
    call_ensures(T::default, (), v)
}

/// The addition of `T` is defined for all operands.
pub open spec fn add_total<T: core::ops::Add<Output = T>>() -> bool {
    forall|a: T, b: T| #[trigger] a.add_req(b)
}

impl<T: Copy, K: Code> SumRepr<T, K> {
    /// The coefficient of a code, or `None` if the code is not in the sum.
    pub fn get(&self, code: K) -> (r: Option<T>)
        requires
            code.code_valid(),
        ensures
            self@.contains_key(code) ==> r == Some(self@[code]),
            !self@.contains_key(code) ==> r is None,
    {
        let key = code.key();
        match self.terms.get(&key) {
            Some(entry) => Some(entry.1),
            None => None,
        }
    }

    /// Replace the coefficient for the given code.
    ///
    /// Returns the previous coefficient, if present, or `None`.
    pub fn update(&mut self, code: K, coeff: T) -> (r: Option<T>)
        requires
            code.code_valid(),
        ensures
            final(self)@ == old(self)@.insert(code, coeff),
            old(self)@.contains_key(code) ==> r == Some(old(self)@[code]),
            !old(self)@.contains_key(code) ==> r is None,
            final(self).requested() == 0,
    {
        proof {
            use_type_invariant(&*self);
        }
        let key = code.key();
        let mut terms = HashMap::new();
        std::mem::swap(&mut terms, &mut self.terms);
        let prev = terms.insert(key, (code, coeff));
        self.terms = terms;
        self.requested = 0;
        proof {
            assert forall|c: K| #[trigger] self@.contains_key(c) == old(self)@.insert(code, coeff).contains_key(c) by {
                if c.code_valid() && c.code_key() == key {
                    K::lemma_key_injective(c, code);
                }
            }
            assert forall|c: K| self@.contains_key(c) implies #[trigger] self@[c] == old(self)@.insert(code, coeff)[c] by {
                if c.code_key() == key {
                    K::lemma_key_injective(c, code);
                }
            }
            assert(self@ =~= old(self)@.insert(code, coeff));
        }
        match prev {
            Some(entry) => {
                proof {
                    K::lemma_key_injective(entry.0, code);
                }
                Some(entry.1)
            },
            None => None,
        }
    }
}

impl<T: Copy + Default, K: Code> SumRepr<T, K> {
    /// Returns the coefficient in the sum for a given code: the coefficient of
    /// the code if present, or the default value of `T` (zero for floating
    /// point numbers).
    pub fn coeff(&self, code: K) -> (r: T)
        requires
            code.code_valid(),
        ensures
            self@.contains_key(code) ==> r == self@[code],
            !self@.contains_key(code) ==> is_default(r),
    {
        match self.get(code) {
            Some(c) => c,
            None => T::default(),
        }
    }
}

impl<T: Copy + Default + core::ops::Add<Output = T>, K: Code> SumRepr<T, K> {
    /// Add coefficient to the given code: the new coefficient is
    /// `coeff + self.coeff(code)`.
    pub fn add_term(&mut self, code: K, coeff: T)
        requires
            code.code_valid(),
            add_total::<T>(),
        ensures
            final(self)@.dom() == old(self)@.dom().insert(code),
            forall|c: K| c != code && old(self)@.contains_key(c) ==> final(self)@[c] == old(self)@[c],
            old(self)@.contains_key(code) ==> call_ensures(T::add, (coeff, old(self)@[code]), final(self)@[code]),
            !old(self)@.contains_key(code) ==> exists|d: T| is_default(d) && call_ensures(T::add, (coeff, d), final(self)@[code]),
            add_step(old(self)@, code, coeff, final(self)@),
    {
        let prev = self.coeff(code);
        let sum = coeff + prev;
        let _ = self.update(code, sum);
    }
}

/// After replacing the coefficient of a code, the sum holds that code with
/// that coefficient, and every other code keeps its coefficient.
pub proof fn lemma_update_then_get<T, K>(before: Map<K, T>, after: Map<K, T>, code: K, coeff: T)
    requires
        after == before.insert(code, coeff),
    ensures
        after.contains_key(code),
        after[code] == coeff,
        forall|c: K| c != code ==> (after.contains_key(c) == before.contains_key(c)),
        forall|c: K| c != code && before.contains_key(c) ==> after[c] == before[c],
{
}

/// `terms` lists each term of `m` once, as `(coefficient, code)`.
pub open spec fn is_listing<T, K>(terms: Seq<(T, K)>, m: Map<K, T>) -> bool {
    &&& terms.len() == m.dom().len()
    &&& forall|i: int| 0 <= i < terms.len() ==> m.contains_key(#[trigger] terms[i].1) && m[terms[i].1] == terms[i].0
    &&& forall|c: K| m.contains_key(c) ==> exists|i: int| 0 <= i < terms.len() && #[trigger] terms[i].1 == c
    &&& forall|i: int, j: int| 0 <= i < j < terms.len() ==> terms[i].1 != terms[j].1
}

impl<T: Copy, K: Code> SumRepr<T, K> {
    /// The terms of the sum as `(coefficient, code)` pairs, each code once, in
    /// an unspecified order.
    pub fn iter(&self) -> (r: Vec<(T, K)>)
        ensures
            is_listing(r@, self@),
    {
        proof {
            use_type_invariant(self);
            self.lemma_len();
        }
        let mut out: Vec<(T, K)> = Vec::new();
        let ghost whole = spec_hash_map_iter(&self.terms).remaining();
        for item in it: self.terms.iter()
            invariant
                it.seq() == whole,
                out@.len() == it.index(),
                forall|j: int| 0 <= j < it.index() ==> out@[j] == ((*it.seq()[j].1).1, (*it.seq()[j].1).0),
        {
            let (_k, entry) = item;
            out.push((entry.1, entry.0));
        }
        proof {
            assert(out@.len() == whole.len());
            assert(whole.no_duplicates());
            assert forall|i: int| 0 <= i < out@.len() implies self@.contains_key(#[trigger] out@[i].1)
                && self@[out@[i].1] == out@[i].0 by {
                assert(self.terms@.contains_key(*whole[i].0));
            }
            assert forall|c: K| self@.contains_key(c) implies exists|i: int| 0 <= i < out@.len() && #[trigger] out@[i].1 == c by {
                let k = c.code_key();
                assert(self.terms@.contains_key(k));
                assert(whole.contains((&k, &self.terms@[k])));
                let i = choose|i: int| 0 <= i < whole.len() && whole[i] == (&k, &self.terms@[k]);
                K::lemma_key_injective(c, self.terms@[k].0);
                assert(out@[i].1 == c);
            }
            assert forall|i: int, j: int| 0 <= i < j < out@.len() implies out@[i].1 != out@[j].1 by {
                assert(self.terms@.contains_key(*whole[i].0));
                assert(self.terms@.contains_key(*whole[j].0));
                if out@[i].1 == out@[j].1 {
                    assert(*whole[i].0 == *whole[j].0);
                    assert(whole[i] == whole[j]);
                }
            }
        }
        out
    }
}

/// `calls` is a run of `iter_mut` with the closure `f` on the coefficients
/// `before`, giving `after`: one call per code of `before`, each code once;
/// the first call is of `f`; each call, by the closure as it was at that call,
/// maps the old coefficient of its code to the new one.
pub open spec fn is_coeff_run<T, K, F: FnMut(T, &K) -> T>(
    f: F,
    before: Map<K, T>,
    after: Map<K, T>,
    calls: Seq<(F, K)>,
) -> bool {
    &&& calls.len() == before.dom().len()
    &&& calls.len() > 0 ==> calls[0].0 == f
    &&& forall|i: int|
        0 <= i < calls.len() ==> before.contains_key((#[trigger] calls[i]).1) && call_ensures(
            calls[i].0,
            (before[calls[i].1], &calls[i].1),
            after[calls[i].1],
        )
    &&& forall|c: K| before.contains_key(c) ==> exists|i: int| 0 <= i < calls.len() && #[trigger] calls[i].1 == c
    &&& forall|i: int, j: int| 0 <= i < j < calls.len() ==> calls[i].1 != calls[j].1
}

impl<T: Copy, K: Code> SumRepr<T, K> {
    /// Call `f` once on each coefficient of the sum, with its code; the
    /// coefficient becomes what `f` returns.
    pub fn iter_mut<F: FnMut(T, &K) -> T>(&mut self, f: F)
        requires
            forall|g: F, t: T, c: &K| #[trigger] call_requires(g, (t, c)),
        ensures
            final(self)@.dom() == old(self)@.dom(),
            exists|calls: Seq<(F, K)>| #[trigger] is_coeff_run(f, old(self)@, final(self)@, calls),
    {
        let items = self.iter();
        let ghost f0 = f;
        let mut f = f;
        let ghost mut calls: Seq<(F, K)> = Seq::empty();
        let mut i: usize = 0;
        while i < items.len()
            invariant
                is_listing(items@, old(self)@),
                0 <= i <= items@.len(),
                calls.len() == i,
                i == 0 ==> f == f0,
                i > 0 ==> calls[0].0 == f0,
                self@.dom() == old(self)@.dom(),
                forall|g: F, t: T, c: &K| #[trigger] call_requires(g, (t, c)),
                forall|j: int| 0 <= j < i ==> (#[trigger] calls[j]).1 == items@[j].1 && call_ensures(
                    calls[j].0,
                    (old(self)@[items@[j].1], &items@[j].1),
                    self@[items@[j].1],
                ),
                forall|j: int| i <= j < items@.len() ==> self@[#[trigger] items@[j].1] == old(self)@[items@[j].1],
            decreases items@.len() - i,
        {
            let (coeff, code) = items[i];
            let ghost g = f;
            let c = f(coeff, &code);
            proof {
                assert(call_ensures(g, (coeff, &code), c));
                use_type_invariant(&*self);
                self.lemma_codes_valid(code);
            }
            let ghost before = self@;
            let _ = self.update(code, c);
            proof {
                let next = calls.push((g, code));
                assert forall|j: int| 0 <= j < i + 1 implies (#[trigger] next[j]).1 == items@[j].1 && call_ensures(
                    next[j].0,
                    (old(self)@[items@[j].1], &items@[j].1),
                    self@[items@[j].1],
                ) by {
                    if j < i {
                        assert(next[j] == calls[j]);
                        assert(items@[j].1 != code);
                        assert(self@[items@[j].1] == before[items@[j].1]);
                    }
                }
                assert forall|j: int| i + 1 <= j < items@.len() implies self@[#[trigger] items@[j].1] == old(self)@[items@[j].1] by {
                    assert(items@[j].1 != code);
                }
                assert(self@.dom() =~= old(self)@.dom());
                calls = next;
            }
            i = i + 1;
        }
        proof {
            assert forall|k: int| 0 <= k < calls.len() implies old(self)@.contains_key((#[trigger] calls[k]).1) && call_ensures(
                calls[k].0,
                (old(self)@[calls[k].1], &calls[k].1),
                self@[calls[k].1],
            ) by {
                assert(calls[k].1 == items@[k].1);
            }
            assert forall|c: K| old(self)@.contains_key(c) implies exists|k: int| 0 <= k < calls.len() && #[trigger] calls[k].1 == c by {
                let j = choose|j: int| 0 <= j < items@.len() && #[trigger] items@[j].1 == c;
                assert(calls[j].1 == items@[j].1);
            }
            assert forall|a: int, b: int| 0 <= a < b < calls.len() implies calls[a].1 != calls[b].1 by {
                assert(calls[a].1 == items@[a].1);
                assert(calls[b].1 == items@[b].1);
            }
            assert(is_coeff_run(f0, old(self)@, self@, calls));
        }
    }
}

/// `next` is `prev` after adding `coeff` to the coefficient of `code`.
pub open spec fn add_step<T: core::ops::Add<Output = T> + Default, K>(
    prev: Map<K, T>,
    code: K,
    coeff: T,
    next: Map<K, T>,
) -> bool {
    &&& next.dom() == prev.dom().insert(code)
    &&& forall|c: K| c != code && prev.contains_key(c) ==> next[c] == prev[c]
    &&& prev.contains_key(code) ==> call_ensures(T::add, (coeff, prev[code]), next[code])
    &&& !prev.contains_key(code) ==> exists|d: T| is_default(d) && call_ensures(T::add, (coeff, d), next[code])
}

/// `last` is `first` after adding the terms one after the other.
pub open spec fn add_all<T: core::ops::Add<Output = T> + Default, K>(
    first: Map<K, T>,
    terms: Seq<(T, K)>,
    last: Map<K, T>,
) -> bool
    decreases terms.len(),
{
    if terms.len() == 0 {
        last == first
    } else {
        exists|mid: Map<K, T>|
            add_all(first, terms.drop_last(), mid) && #[trigger] add_step(mid, terms.last().1, terms.last().0, last)
    }
}

/// `std`'s `HashMap::capacity` on the map of a sum: the number of entries the
/// map can hold without reallocating. The map holds its entries, so the
/// number is at least theirs. While the sum's `requested` is not zero, its map
/// is the one that `HashMap::with_capacity(requested)` made, with nothing
/// inserted since, and std documents that such a map can hold at least
/// `requested` entries without reallocating (its example of `capacity`
/// checks `with_capacity(100).capacity() >= 100`). The exact value depends on
/// the allocator and is not stated.
#[verifier::external_body]
fn hash_map_capacity<T, K: Code>(s: &SumRepr<T, K>) -> (r: usize)
    ensures
        r >= s.terms@.len(),
        r >= s.requested,
{
    s.terms.capacity()
}

impl<T, K: Code> SumRepr<T, K> {
    /// Returns the number of elements the sum can hold without reallocating:
    /// at least its number of terms, and at least the capacity it was created
    /// with while no term has been set since.
    pub fn capacity(&self) -> (r: usize)
        ensures
            r >= self@.dom().len(),
            r >= self.requested(),
    {
        proof {
            use_type_invariant(self);
            self.lemma_len();
        }
        hash_map_capacity(self)
    }
}

impl<T: Copy + Default + core::ops::Add<Output = T>, K: Code> SumRepr<T, K> {
    /// Add each coefficient to its code, one term after the other.
    pub fn extend(&mut self, terms: Vec<(T, K)>)
        requires
            add_total::<T>(),
            forall|i: int| 0 <= i < terms@.len() ==> (#[trigger] terms@[i]).1.code_valid(),
        ensures
            add_all(old(self)@, terms@, final(self)@),
    {
        let mut i: usize = 0;
        while i < terms.len()
            invariant
                add_total::<T>(),
                0 <= i <= terms@.len(),
                forall|j: int| 0 <= j < terms@.len() ==> (#[trigger] terms@[j]).1.code_valid(),
                add_all(old(self)@, terms@.subrange(0, i as int), self@),
            decreases terms@.len() - i,
        {
            let ghost mid = self@;
            let (coeff, code) = terms[i];
            self.add_term(code, coeff);
            proof {
                let prefix = terms@.subrange(0, i + 1);
                assert(prefix.drop_last() =~= terms@.subrange(0, i as int));
                assert(add_step(mid, prefix.last().1, prefix.last().0, self@));
            }
            i = i + 1;
        }
        assert(terms@.subrange(0, terms@.len() as int) =~= terms@);
    }
}

impl<T: Copy + Default + core::ops::Add<Output = T>, K: Code> SumRepr<T, K> {
    /// The sum of the given terms, added one after the other.
    pub fn from<const N: usize>(terms: [(T, K); N]) -> (r: Self)
        requires
            add_total::<T>(),
            forall|i: int| 0 <= i < N ==> (#[trigger] terms@[i]).1.code_valid(),
        ensures
            add_all(Map::<K, T>::empty(), terms@, r@),
    {
        let mut r = SumRepr::new();
        let mut i: usize = 0;
        while i < N
            invariant
                add_total::<T>(),
                0 <= i <= N,
                terms@.len() == N,
                forall|j: int| 0 <= j < N ==> (#[trigger] terms@[j]).1.code_valid(),
                add_all(Map::<K, T>::empty(), terms@.subrange(0, i as int), r@),
            decreases N - i,
        {
            let ghost mid = r@;
            let (coeff, code) = terms[i];
            r.add_term(code, coeff);
            proof {
                let prefix = terms@.subrange(0, i + 1);
                assert(prefix.drop_last() =~= terms@.subrange(0, i as int));
                assert(add_step(mid, prefix.last().1, prefix.last().0, r@));
            }
            i = i + 1;
        }
        assert(terms@.subrange(0, N as int) =~= terms@);
        r
    }
}

impl<T, K: Code> Default for SumRepr<T, K> {
    fn default() -> (r: Self)
        ensures
            r@ == Map::<K, T>::empty(),
    {
        SumRepr::new()
    }
}

/// A collection that terms `(coefficient, code)` can be added to, one after
/// the other.
pub trait Target<T, K>: Sized {
    /// The term can be added.
    spec fn accepts(term: (T, K)) -> bool;

    /// `next` is `prev` after adding the term.
    spec fn adds(prev: Self, term: (T, K), next: Self) -> bool;

    /// Add one term.
    fn add(&mut self, term: (T, K))
        requires
            Self::accepts(term),
        ensures
            Self::adds(*old(self), term, *final(self)),
    ;
}

/// `last` is `first` after adding the terms one after the other.
pub open spec fn adds_all<T, K, R: Target<T, K>>(first: R, terms: Seq<(T, K)>, last: R) -> bool
    decreases terms.len(),
{
    if terms.len() == 0 {
        last == first
    } else {
        exists|mid: R| adds_all(first, terms.drop_last(), mid) && #[trigger] R::adds(mid, terms.last(), last)
    }
}

/// Adding a term to a list appends it.
impl<T, K> Target<T, K> for Vec<(T, K)> {
    open spec fn accepts(term: (T, K)) -> bool {
        true
    }

    open spec fn adds(prev: Self, term: (T, K), next: Self) -> bool {
        next@ == prev@.push(term)
    }

    fn add(&mut self, term: (T, K)) {
        self.push(term);
    }
}

/// Adding a term to a sum adds its coefficient to that of its code.
impl<T: Copy + Default + core::ops::Add<Output = T>, K: Code> Target<T, K> for SumRepr<T, K> {
    open spec fn accepts(term: (T, K)) -> bool {
        term.1.code_valid() && add_total::<T>()
    }

    open spec fn adds(prev: Self, term: (T, K), next: Self) -> bool {
        add_step(prev@, term.1, term.0, next@)
    }

    fn add(&mut self, term: (T, K)) {
        self.add_term(term.1, term.0);
    }
}

/// Adding terms to a list appends them, in their order.
pub proof fn lemma_adds_all_list<T, K>(first: Vec<(T, K)>, terms: Seq<(T, K)>, last: Vec<(T, K)>)
    requires
        adds_all(first, terms, last),
    ensures
        last@ == first@ + terms,
    decreases terms.len(),
{
    if terms.len() > 0 {
        let mid = choose|mid: Vec<(T, K)>| adds_all(first, terms.drop_last(), mid) && #[trigger] <Vec<(T, K)> as Target<T, K>>::adds(mid, terms.last(), last);
        lemma_adds_all_list(first, terms.drop_last(), mid);
        assert(terms.drop_last().push(terms.last()) =~= terms);
        assert(last@ =~= first@ + terms);
    }
}

/// Adding terms to a sum adds their coefficients to those of their codes, one
/// term after the other.
pub proof fn lemma_adds_all_sum<T: Copy + Default + core::ops::Add<Output = T>, K: Code>(
    first: SumRepr<T, K>,
    terms: Seq<(T, K)>,
    last: SumRepr<T, K>,
)
    requires
        adds_all(first, terms, last),
    ensures
        add_all(first@, terms, last@),
    decreases terms.len(),
{
    if terms.len() > 0 {
        let mid = choose|mid: SumRepr<T, K>| adds_all(first, terms.drop_last(), mid) && #[trigger] <SumRepr<T, K> as Target<T, K>>::adds(mid, terms.last(), last);
        lemma_adds_all_sum(first, terms.drop_last(), mid);
        assert(add_all(first@, terms.drop_last(), mid@) && add_step(mid@, terms.last().1, terms.last().0, last@));
    }
}

/// Add a sequence of terms to a collection, one after the other.
pub(crate) fn add_each<T: Copy, K: Copy, R: Target<T, K>>(repr: &mut R, items: &Vec<(T, K)>)
    requires
        forall|i: int| 0 <= i < items@.len() ==> R::accepts(#[trigger] items@[i]),
    ensures
        adds_all(*old(repr), items@, *final(repr)),
{
    let mut i: usize = 0;
    while i < items.len()
        invariant
            0 <= i <= items@.len(),
            forall|j: int| 0 <= j < items@.len() ==> R::accepts(#[trigger] items@[j]),
            adds_all(*old(repr), items@.subrange(0, i as int), *repr),
        decreases items@.len() - i,
    {
        let ghost mid = *repr;
        repr.add(items[i]);
        proof {
            let prefix = items@.subrange(0, i + 1);
            assert(prefix.drop_last() =~= items@.subrange(0, i as int));
            assert(R::adds(mid, prefix.last(), *repr));
        }
        i = i + 1;
    }
    assert(items@.subrange(0, items@.len() as int) =~= items@);
}

/// Convert and add sums of terms in various encodings.
pub trait Terms<T, K: Code> {
    /// What producing the terms relies on holds.
    spec fn terms_ready(&self) -> bool;

    /// Add terms to the supplied collection.
    fn add_to<R: Target<T, K>>(&mut self, repr: &mut R) -> (r: Result<(), Error>)
        requires
            self.terms_ready(),
            forall|t: (T, K)| t.1.code_valid() ==> #[trigger] R::accepts(t),
    ;
}

impl<T: Copy + Default + core::ops::Add<Output = T>, K: Code> Terms<T, K> for SumRepr<T, K> {
    open spec fn terms_ready(&self) -> bool {
        true
    }

    /// Add each term of this sum to `repr`, in the order in which the sum lists
    /// its terms.
    fn add_to<R: Target<T, K>>(&mut self, repr: &mut R) -> (r: Result<(), Error>)
        ensures
            r is Ok,
            exists|terms: Seq<(T, K)>| is_listing(terms, old(self)@) && #[trigger] adds_all(*old(repr), terms, *final(repr)),
            final(self)@ == old(self)@,
    {
        let items = self.iter();
        proof {
            use_type_invariant(&*self);
            assert forall|i: int| 0 <= i < items@.len() implies R::accepts(#[trigger] items@[i]) by {
                self.lemma_codes_valid(items@[i].1);
            }
        }
        add_each(repr, &items);
        Ok(())
    }
}

} // verus!

verus! {

/// The terms that a sequence of calls of a closure returned, in call order:
/// each call is the closure before the call and what the call returned.
pub open spec fn returned_terms<T, K, OP>(calls: Seq<(OP, Option<(T, K)>)>) -> Seq<(T, K)>
    decreases calls.len(),
{
    if calls.len() == 0 {
        seq![]
    } else {
        returned_terms(calls.drop_last()) + match calls.last().1 {
            Some(t) => seq![t],
            None => seq![],
        }
    }
}

/// `calls` is a run of `add_to` of a `StackRepr` whose closure was `f`: the
/// first call is of `f`, each call returned what it records, every call but the
/// last returned a term, and the run ended with a call that returned `None`,
/// or after `usize::MAX` calls.
pub open spec fn is_producer_run<T, K, OP: FnMut() -> Option<(T, K)>>(f: OP, calls: Seq<(OP, Option<(T, K)>)>) -> bool {
    &&& 0 < calls.len() <= usize::MAX
    &&& calls[0].0 == f
    &&& forall|i: int| 0 <= i < calls.len() ==> call_ensures((#[trigger] calls[i]).0, (), calls[i].1)
    &&& forall|i: int| 0 <= i < calls.len() - 1 ==> (#[trigger] calls[i]).1 is Some
    &&& calls.last().1 is None || calls.len() == usize::MAX
}

/// Terms produced by a closure, one per call, until it returns `None`.
#[verifier::reject_recursive_types(T)]
#[verifier::reject_recursive_types(K)]
pub struct StackRepr<T, K, OP> where OP: FnMut() -> Option<(T, K)> {
    f: OP,
}

impl<T, K, OP> StackRepr<T, K, OP> where OP: FnMut() -> Option<(T, K)> {
    /// The closure that produces the terms.
    pub closed spec fn producer(&self) -> OP {
        self.f
    }

    pub fn new(f: OP) -> (r: Self)
        ensures
            r.producer() == f,
    {
        StackRepr { f }
    }
}

impl<T: Copy + Default + core::ops::Add<Output = T>, K: Code, OP> Terms<T, K> for StackRepr<T, K, OP> where
    OP: FnMut() -> Option<(T, K)>,
 {
    open spec fn terms_ready(&self) -> bool {
        &&& forall|g: OP| #[trigger] call_requires(g, ())
        &&& forall|g: OP, t: Option<(T, K)>| #[trigger] call_ensures(g, (), t) ==> (t matches Some(p) ==> p.1.code_valid())
    }

    /// Call the closure and add each term that it returns to `repr`, in call
    /// order, until it returns `None` (or has been called `usize::MAX` times).
    fn add_to<R: Target<T, K>>(&mut self, repr: &mut R) -> (r: Result<(), Error>)
        ensures
            r is Ok,
            exists|calls: Seq<(OP, Option<(T, K)>)>|
                #[trigger] is_producer_run(old(self).producer(), calls) && adds_all(
                    *old(repr),
                    returned_terms(calls),
                    *final(repr),
                ),
    {
        let mut count: usize = 0;
        let mut done = false;
        let ghost mut calls: Seq<(OP, Option<(T, K)>)> = Seq::empty();
        while count < usize::MAX && !done
            invariant
                forall|t: (T, K)| t.1.code_valid() ==> #[trigger] R::accepts(t),
                forall|g: OP| #[trigger] call_requires(g, ()),
                forall|g: OP, t: Option<(T, K)>| #[trigger] call_ensures(g, (), t) ==> (t matches Some(p) ==> p.1.code_valid()),
                calls.len() == count,
                count == 0 ==> self.f == old(self).f && !done,
                count > 0 ==> calls[0].0 == old(self).f,
                forall|i: int| 0 <= i < calls.len() ==> call_ensures((#[trigger] calls[i]).0, (), calls[i].1),
                forall|i: int| 0 <= i < calls.len() - 1 ==> (#[trigger] calls[i]).1 is Some,
                count > 0 ==> (done <==> calls.last().1 is None),
                adds_all(*old(repr), returned_terms(calls), *repr),
            decreases usize::MAX - count,
        {
            let ghost before = self.f;
            let item = (self.f)();
            assert(call_ensures(before, (), item));
            let ghost next = calls.push((before, item));
            assert(next.drop_last() =~= calls);
            match item {
                Some(term) => {
                    let ghost mid = *repr;
                    repr.add(term);
                    proof {
                        let terms = returned_terms(next);
                        assert(terms =~= returned_terms(calls).push(term));
                        assert(terms.drop_last() =~= returned_terms(calls));
                        assert(R::adds(mid, terms.last(), *repr));
                    }
                },
                None => {
                    assert(returned_terms(next) =~= returned_terms(calls));
                    done = true;
                },
            }
            proof {
                calls = next;
            }
            count = count + 1;
        }
        assert(is_producer_run(old(self).producer(), calls));
        Ok(())
    }
}

} // verus!
