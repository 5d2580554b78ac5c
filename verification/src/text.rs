//! Building the text of diagnostics.

use vstd::prelude::*;
use vstd::string::*;

verus! {

/// `String::push` of the standard library: the string grows by exactly the
/// one character given, at its end.
#[verifier::external_body]
pub(crate) fn push_char(s: &mut String, c: char)
    ensures
        final(s)@ == old(s)@.push(c),
{
    s.push(c)
}

/// The character of a decimal digit.
pub open spec fn digit_char(d: nat) -> char
    recommends
        d < 10,
{
    ((0x30 + d) as u8) as char
}

/// Decimal spelling of a natural number, without leading zeros.
pub open spec fn decimal(n: nat) -> Seq<char>
    decreases n,
{
    if n < 10 {
        seq![digit_char(n)]
    } else {
        decimal(n / 10).push(digit_char(n % 10))
    }
}

/// The characters that a run of bytes stands for, one for one.
pub open spec fn bytes_as_chars(bytes: Seq<u8>) -> Seq<char> {
    Seq::new(bytes.len(), |i: int| bytes[i] as char)
}

/// Appends the decimal spelling of `n`.
pub fn append_decimal(s: &mut String, n: usize)
    ensures
        final(s)@ == old(s)@ + decimal(n as nat),
    decreases n,
{
    if n >= 10 {
        append_decimal(s, n / 10);
    }
    let d: u8 = (n % 10) as u8;
    push_char(s, (0x30 + d) as char);
    proof {
        assert(s@ =~= old(s)@ + decimal(n as nat));
    }
}

/// Appends one character for each byte.
pub fn append_bytes(s: &mut String, bytes: &[u8])
    ensures
        final(s)@ == old(s)@ + bytes_as_chars(bytes@),
{
    let mut i: usize = 0;
    while i < bytes.len()
        invariant
            i <= bytes.len(),
            s@ == old(s)@ + bytes_as_chars(bytes@.take(i as int)),
        decreases bytes.len() - i,
    {
        push_char(s, bytes[i] as char);
        proof {
            assert(bytes_as_chars(bytes@.take(i as int)).push(bytes@[i as int] as char)
                =~= bytes_as_chars(bytes@.take(i + 1)));
        }
        i += 1;
    }
    proof {
        assert(bytes@.take(i as int) =~= bytes@);
    }
}

} // verus!
