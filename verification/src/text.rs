//! Small text utilities shared by the modules: decimal rendering, appending
//! characters, and the characters of a string.

use vstd::prelude::*;

verus! {

/// `String::push` appends one character at the end of the string.
#[verifier::external_body]
pub(crate) fn push_char(s: &mut String, c: char)
    ensures
        final(s)@ == old(s)@.push(c),
{
    s.push(c);
}

pub open spec fn digit_char(d: nat) -> char
    recommends
        d < 10,
{
    ((d + 0x30) as u8) as char
}

/// The decimal digits of `n`, most significant first, without leading zeros.
pub open spec fn decimal_chars(n: nat) -> Seq<char>
    decreases n,
{
    if n < 10 {
        seq![digit_char(n)]
    } else {
        decimal_chars(n / 10).push(digit_char(n % 10))
    }
}

/// Writes `n` in decimal.
pub fn decimal(n: usize) -> (r: String)
    ensures
        r@ == decimal_chars(n as nat),
    decreases n,
{
    if n < 10 {
        let mut r = String::new();
        push_char(&mut r, ((n as u8) + 0x30) as char);
        assert(r@ =~= seq![digit_char(n as nat)]);
        r
    } else {
        let mut r = decimal(n / 10);
        push_char(&mut r, (((n % 10) as u8) + 0x30) as char);
        r
    }
}

/// The characters of a string, in order.
pub fn chars_of(s: &str) -> (r: Vec<char>)
    ensures
        r@ == s@,
{
    broadcast use vstd::string::axiom_spec_iter;
    let mut r: Vec<char> = Vec::new();
    for c in it: s.chars()
        invariant
            r@.len() == it.index(),
            forall|i: int| 0 <= i < r@.len() ==> r@[i] == it.seq()[i],
    {
        r.push(c);
    }
    assert(r@ =~= s@);
    r
}

} // verus!
