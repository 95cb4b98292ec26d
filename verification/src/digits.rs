//! ASCII digit helpers shared by the fixed-width field parsers: reading a
//! decimal digit or digit pair from wire bytes, and writing values back as
//! zero-padded decimal text.

use vstd::prelude::*;

verus! {

/// `b` is an ASCII decimal digit.
pub open spec fn is_digit(b: u8) -> bool {
    48 <= b <= 57
}

/// The numeric value of the ASCII digit `b`.
pub open spec fn digit_val(b: u8) -> int
    recommends
        is_digit(b),
{
    b - 48
}

/// The value of the two-digit decimal number written `b1 b2`.
pub open spec fn pair_val(b1: u8, b2: u8) -> int
    recommends
        is_digit(b1),
        is_digit(b2),
{
    10 * digit_val(b1) + digit_val(b2)
}

/// The ASCII digit for `v` (meaningful for `0 <= v <= 9`).
pub open spec fn digit_of(v: int) -> u8 {
    (48 + (v % 10)) as u8
}

/// `v` written as two zero-padded ASCII digits (meaningful for `v <= 99`).
pub open spec fn two_digits(v: int) -> Seq<u8> {
    seq![digit_of(v / 10), digit_of(v)]
}

/// Writing a two-digit value and reading it back is the identity.
pub proof fn lemma_two_digits_val(v: int)
    requires
        0 <= v <= 99,
    ensures
        is_digit(two_digits(v)[0]),
        is_digit(two_digits(v)[1]),
        pair_val(two_digits(v)[0], two_digits(v)[1]) == v,
{
}

/// Reading a two-digit field and writing it back reproduces the bytes.
pub proof fn lemma_pair_two_digits(b1: u8, b2: u8)
    requires
        is_digit(b1),
        is_digit(b2),
    ensures
        two_digits(pair_val(b1, b2)) == seq![b1, b2],
{
    let v = pair_val(b1, b2);
    assert(v / 10 == digit_val(b1)) by {
        assert(v == 10 * digit_val(b1) + digit_val(b2));
    };
    assert(two_digits(v) =~= seq![b1, b2]);
}

/// Exec test for [`is_digit`].
pub fn byte_is_digit(b: u8) -> (r: bool)
    ensures
        r == is_digit(b),
{
    48 <= b && b <= 57
}

/// Reads the two-digit decimal number `b1 b2`.
pub fn read_pair(b1: u8, b2: u8) -> (v: u8)
    requires
        is_digit(b1),
        is_digit(b2),
    ensures
        v == pair_val(b1, b2),
{
    (b1 - 48) * 10 + (b2 - 48)
}

/// `v` written as three zero-padded ASCII digits (meaningful for
/// `v <= 999`).
pub open spec fn three_digits(v: int) -> Seq<u8> {
    seq![digit_of(v / 100), digit_of(v / 10), digit_of(v)]
}

/// Appends the two low decimal digits of `v` to `buf`, zero-padded.
pub fn push_two_digits(buf: &mut Vec<u8>, v: u32)
    ensures
        final(buf)@ == old(buf)@ + two_digits(v as int),
{
    buf.push((48 + (v / 10) % 10) as u8);
    buf.push((48 + v % 10) as u8);
    assert(buf@ =~= old(buf)@ + two_digits(v as int));
}

/// Appends the three low decimal digits of `v` to `buf`, zero-padded.
pub fn push_three_digits(buf: &mut Vec<u8>, v: u32)
    ensures
        final(buf)@ == old(buf)@ + three_digits(v as int),
{
    buf.push((48 + (v / 100) % 10) as u8);
    buf.push((48 + (v / 10) % 10) as u8);
    buf.push((48 + v % 10) as u8);
    assert(buf@ =~= old(buf)@ + three_digits(v as int));
}

} // verus!
