//! Character-level helpers for the text-oriented parsers: ASCII digit
//! tests, decimal values of digit runs, and locating delimiter characters
//! in a string.

use vstd::prelude::*;

use vstd::string::StrSliceExecFns;

verus! {

/// `c` is an ASCII decimal digit.
pub open spec fn is_char_digit(c: char) -> bool {
    48 <= (c as int) <= 57
}

/// The numeric value of the ASCII digit `c`.
pub open spec fn char_digit_val(c: char) -> int
    recommends
        is_char_digit(c),
{
    (c as int) - 48
}

/// Every character of `s` is an ASCII decimal digit.
pub open spec fn all_char_digits(s: Seq<char>) -> bool {
    forall|i: int| 0 <= i < s.len() ==> is_char_digit(#[trigger] s[i])
}

/// The decimal value of the digit run `s` (0 when empty).
pub open spec fn decimal_val(s: Seq<char>) -> int
    decreases s.len(),
{
    if s.len() == 0 {
        0
    } else {
        decimal_val(s.drop_last()) * 10 + char_digit_val(s.last())
    }
}

/// The first index of `c` in `s`, or -1 when `s` does not contain it.
pub open spec fn first_index(s: Seq<char>, c: char) -> int
    decreases s.len(),
{
    if s.len() == 0 {
        -1
    } else if s[0] == c {
        0
    } else {
        let r = first_index(s.skip(1), c);
        if r < 0 {
            -1
        } else {
            r + 1
        }
    }
}

/// What [`first_index`] means, index by index.
pub proof fn lemma_first_index(s: Seq<char>, c: char)
    ensures
        first_index(s, c) == -1 ==> forall|i: int| 0 <= i < s.len() ==> s[i] != c,
        first_index(s, c) >= 0 ==> 0 <= first_index(s, c) < s.len() && s[first_index(s, c)] == c
            && forall|i: int| 0 <= i < first_index(s, c) ==> s[i] != c,
    decreases s.len(),
{
    if s.len() > 0 && s[0] != c {
        lemma_first_index(s.skip(1), c);
        let r = first_index(s.skip(1), c);
        if r == -1 {
            assert forall|i: int| 0 <= i < s.len() implies s[i] != c by {
                if i > 0 {
                    assert(s.skip(1)[i - 1] == s[i]);
                }
            }
        } else {
            assert(s[r + 1] == s.skip(1)[r]);
            assert forall|i: int| 0 <= i < r + 1 implies s[i] != c by {
                if i > 0 {
                    assert(s.skip(1)[i - 1] == s[i]);
                }
            }
        }
    }
}

/// Exec test for [`is_char_digit`].
pub fn char_is_digit(c: char) -> (r: bool)
    ensures
        r == is_char_digit(c),
{
    let u = c as u32;
    48 <= u && u <= 57
}

/// The exec value of the ASCII digit `c`.
pub fn char_digit(c: char) -> (v: u8)
    requires
        is_char_digit(c),
    ensures
        v == char_digit_val(c),
{
    (c as u32 - 48) as u8
}

/// Finds the first occurrence of `c` in `s`, per [`first_index`].
pub fn find_char(s: &str, c: char) -> (r: Option<usize>)
    ensures
        match r {
            Some(i) => first_index(s@, c) == i,
            None => first_index(s@, c) == -1,
        },
{
    let len = s.unicode_len();
    let mut i: usize = 0;
    while i < len
        invariant
            0 <= i <= len,
            len == s@.len(),
            forall|j: int| 0 <= j < i ==> s@[j] != c,
        decreases len - i,
    {
        if s.get_char(i) == c {
            proof {
                lemma_first_index_converse(s@, c, i as int);
            }
            return Some(i);
        }
        i += 1;
    }
    proof {
        lemma_first_index(s@, c);
        if first_index(s@, c) >= 0 {
            assert(s@[first_index(s@, c)] == c);
        }
    }
    None
}

/// If `s[k] == c` and no earlier character equals `c`, then `k` is the
/// first index of `c`.
pub proof fn lemma_first_index_converse(s: Seq<char>, c: char, k: int)
    requires
        0 <= k < s.len(),
        s[k] == c,
        forall|i: int| 0 <= i < k ==> s[i] != c,
    ensures
        first_index(s, c) == k,
    decreases s.len(),
{
    if k > 0 {
        assert(s.skip(1)[k - 1] == c);
        assert forall|i: int| 0 <= i < k - 1 implies s.skip(1)[i] != c by {
            assert(s.skip(1)[i] == s[i + 1]);
        }
        lemma_first_index_converse(s.skip(1), c, k - 1);
    }
}

} // verus!
