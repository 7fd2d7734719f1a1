//! Building and reading text.
use vstd::prelude::*;
use vstd::string::*;

verus! {

/// `std`'s `String::push`: appends one character at the end of the string.
#[verifier::external_body]
pub(crate) fn push_char(s: &mut String, c: char)
    ensures
        final(s)@ == old(s)@.push(c),
{
    s.push(c)
}

/// The decimal digit character of `d` (`0 <= d < 10`).
pub open spec fn digit_char(d: int) -> char {
    if d == 0 {
        '0'
    } else if d == 1 {
        '1'
    } else if d == 2 {
        '2'
    } else if d == 3 {
        '3'
    } else if d == 4 {
        '4'
    } else if d == 5 {
        '5'
    } else if d == 6 {
        '6'
    } else if d == 7 {
        '7'
    } else if d == 8 {
        '8'
    } else {
        '9'
    }
}

/// The decimal representation of a natural number, most significant digit first.
pub open spec fn decimal(v: nat) -> Seq<char>
    decreases v,
{
    if v < 10 {
        seq![digit_char(v as int)]
    } else {
        decimal(v / 10) + seq![digit_char(v as int % 10)]
    }
}

/// The value of a decimal digit character: its distance from `'0'`.
pub open spec fn digit_value(c: char) -> int {
    (c as int) - ('0' as int)
}

/// The number that a string of decimal digits writes, most significant digit
/// first.
pub open spec fn read_decimal(t: Seq<char>) -> int
    decreases t.len(),
{
    if t.len() == 0 {
        0
    } else {
        read_decimal(t.drop_last()) * 10 + digit_value(t.last())
    }
}

/// The digit characters stand for their digits.
proof fn lemma_digit_char(d: int)
    requires
        0 <= d < 10,
    ensures
        digit_value(digit_char(d)) == d,
        '0' <= digit_char(d) <= '9',
        d > 0 ==> digit_char(d) != '0',
{
}

/// The decimal text of a number is made of digits, has no leading zero, and
/// read back in base 10, most significant digit first, gives the number.
pub proof fn lemma_decimal_reads_back(v: nat)
    ensures
        decimal(v).len() >= 1,
        forall|i: int| 0 <= i < decimal(v).len() ==> '0' <= #[trigger] decimal(v)[i] <= '9',
        v >= 10 ==> decimal(v)[0] != '0',
        read_decimal(decimal(v)) == v,
    decreases v,
{
    if v < 10 {
        lemma_digit_char(v as int);
        let t = decimal(v);
        assert(t.drop_last() =~= Seq::<char>::empty());
        assert(read_decimal(t.drop_last()) == 0);
        assert(read_decimal(t) == read_decimal(t.drop_last()) * 10 + digit_value(t.last()));
    } else {
        let h = (v / 10) as nat;
        lemma_decimal_reads_back(h);
        lemma_digit_char(v as int % 10);
        let t = decimal(v);
        assert(t.drop_last() =~= decimal(h));
        assert(t.last() == digit_char(v as int % 10));
        assert(t[0] == decimal(h)[0]);
        if h < 10 {
            lemma_digit_char(h as int);
        }
        assert forall|i: int| 0 <= i < t.len() implies '0' <= #[trigger] t[i] <= '9' by {
            if i < decimal(h).len() {
                assert(t[i] == decimal(h)[i]);
            }
        }
        assert(read_decimal(t) == read_decimal(t.drop_last()) * 10 + digit_value(t.last()));
        assert(h * 10 + v % 10 == v);
    }
}

fn digit(d: u32) -> (c: char)
    requires
        d < 10,
    ensures
        c == digit_char(d as int),
{
    if d == 0 {
        '0'
    } else if d == 1 {
        '1'
    } else if d == 2 {
        '2'
    } else if d == 3 {
        '3'
    } else if d == 4 {
        '4'
    } else if d == 5 {
        '5'
    } else if d == 6 {
        '6'
    } else if d == 7 {
        '7'
    } else if d == 8 {
        '8'
    } else {
        '9'
    }
}

/// Append the decimal representation of `v` to `s`.
pub fn push_decimal(s: &mut String, v: u32)
    ensures
        final(s)@ == old(s)@ + decimal(v as nat),
    decreases v,
{
    if v < 10 {
        push_char(s, digit(v));
        assert(decimal(v as nat) =~= seq![digit_char(v as int)]);
    } else {
        push_decimal(s, v / 10);
        push_char(s, digit(v % 10));
    }
}

/// Append a string slice to `s`.
pub fn push_str(s: &mut String, t: &str)
    ensures
        final(s)@ == old(s)@ + t@,
{
    s.append(t);
}

} // verus!
