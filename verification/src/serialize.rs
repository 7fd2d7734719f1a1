//! Text forms of sums of terms: the tag and encoding names of a serialized sum.
use vstd::prelude::*;
use vstd::string::*;
use crate::Error;

verus! {

/// The encoding of the codes of a serialized sum.
#[derive(Clone, Copy, Debug, PartialEq, Eq, Structural)]
pub enum Encoding {
    Qubits,
    Fermions,
}

/// The tag of a serialized sum.
pub open spec fn sumrepr_tag() -> Seq<char> {
    seq!['s', 'u', 'm', 'r', 'e', 'p', 'r']
}

impl Encoding {
    /// The name of the encoding.
    pub open spec fn spec_name(self) -> Seq<char> {
        match self {
            Encoding::Qubits => seq!['q', 'u', 'b', 'i', 't', 's'],
            Encoding::Fermions => seq!['f', 'e', 'r', 'm', 'i', 'o', 'n', 's'],
        }
    }

    /// The name of the encoding: `qubits` or `fermions`.
    pub fn name(&self) -> (r: &'static str)
        ensures
            r@ == self.spec_name(),
    {
        match self {
            Encoding::Qubits => {
                proof {
                    reveal_strlit("qubits");
                }
                "qubits"
            },
            Encoding::Fermions => {
                proof {
                    reveal_strlit("fermions");
                }
                "fermions"
            },
        }
    }

    /// The encoding with the given name.
    pub fn from_name(name: &str) -> (r: Option<Encoding>)
        ensures
            r matches Some(e) ==> e.spec_name() == name@,
            r is None ==> name@ != Encoding::Qubits.spec_name() && name@ != Encoding::Fermions.spec_name(),
    {
        if str_eq(name, Encoding::Qubits.name()) {
            Some(Encoding::Qubits)
        } else if str_eq(name, Encoding::Fermions.name()) {
            Some(Encoding::Fermions)
        } else {
            None
        }
    }
}

/// An encoding is determined by its name, so that reading back the name of an
/// encoding gives the encoding.
pub proof fn lemma_name_roundtrip(e: Encoding, f: Encoding)
    ensures
        e.spec_name() == f.spec_name() ==> e == f,
{
    if e != f {
        assert(e.spec_name().len() != f.spec_name().len());
    }
}

/// Two strings hold the same characters.
pub fn str_eq(a: &str, b: &str) -> (r: bool)
    ensures
        r == (a@ == b@),
{
    let n = a.unicode_len();
    if n != b.unicode_len() {
        return false;
    }
    let mut i: usize = 0;
    while i < n
        invariant
            n == a@.len(),
            n == b@.len(),
            0 <= i <= n,
            a@.subrange(0, i as int) == b@.subrange(0, i as int),
        decreases n - i,
    {
        if a.get_char(i) != b.get_char(i) {
            assert(a@[i as int] != b@[i as int]);
            return false;
        }
        assert(a@.subrange(0, i + 1) =~= a@.subrange(0, i as int).push(a@[i as int]));
        assert(b@.subrange(0, i + 1) =~= b@.subrange(0, i as int).push(b@[i as int]));
        i = i + 1;
    }
    assert(a@ =~= a@.subrange(0, n as int));
    assert(b@ =~= b@.subrange(0, n as int));
    true
}

/// Check the tag and the encoding of a serialized sum: the tag must be
/// `sumrepr` and the encoding the expected one.
pub fn check_header(tag: &str, encoding: Encoding, expected: Encoding) -> (r: Result<(), Error>)
    ensures
        r is Ok <==> (tag@ == sumrepr_tag() && encoding == expected),
{
    let name = "sumrepr";
    proof {
        reveal_strlit("sumrepr");
        assert(name@ =~= sumrepr_tag());
    }
    if !str_eq(tag, name) {
        return Err(Error::QubitIndex { msg: String::from_str("type should be: 'sumrepr'") });
    }
    if encoding != expected {
        return Err(
            Error::QubitIndex {
                msg: match expected {
                    Encoding::Qubits => String::from_str("encoding should be: 'qubits'"),
                    Encoding::Fermions => String::from_str("encoding should be: 'fermions'"),
                },
            },
        );
    }
    Ok(())
}

} // verus!
