//! The fixed-width 7-byte data extension that may follow an uncompressed
//! position: course/speed, station power, pre-calculated radio range, or
//! signal strength.

use vstd::prelude::*;

use crate::chars::{char_digit, char_digit_val, char_is_digit, is_char_digit};
use crate::digits::{byte_is_digit, digit_val, is_digit};
use crate::error::{result_matches, AprsError, SpecErr};
use vstd::slice::{slice_index_get, slice_subrange, slice_to_vec};
use vstd::string::StrSliceExecFns;

verus! {

/// A decoded data extension token.
#[derive(Debug, Clone, PartialEq, Eq)]
pub enum DataExtension {
    /// Course in degrees (at most 360) and speed in knots.
    CourseSpeed(u16, u16),
    /// Power, effective antenna height, gain and directivity digits
    /// (`PHGdddd`).
    StationPower(u8, u8, u8, u8),
    /// Pre-calculated radio range in miles (`RNGdddd`).
    RadioRange(u16),
    /// Signal strength, effective antenna height, gain and directivity
    /// digits (`DFSdddd`).
    SignalStrength(u8, u8, u8, u8),
}

/// The value of the three-digit decimal number at `s[i..i+3]`.
pub open spec fn triple_val(s: Seq<char>, i: int) -> int {
    char_digit_val(s[i]) * 100 + char_digit_val(s[i + 1]) * 10 + char_digit_val(s[i + 2])
}

/// `s[i..i+4]` are all ASCII digits.
pub open spec fn four_digits_at(s: Seq<char>, i: int) -> bool {
    is_char_digit(s[i]) && is_char_digit(s[i + 1]) && is_char_digit(s[i + 2]) && is_char_digit(
        s[i + 3],
    )
}

/// What parsing a 7-character data extension token yields, checked in
/// order: `DDD/SSS` is course/speed, but a course above 360 is an invalid
/// course; `PHGdddd` is station power; `RNGdddd` is radio range;
/// `DFSdddd` is signal strength; anything else is an invalid data
/// extension.  The error carries the whole token.
pub open spec fn spec_parse_data_extension(s: Seq<char>) -> Result<DataExtension, SpecErr>
    recommends
        s.len() == 7,
{
    if is_char_digit(s[0]) && is_char_digit(s[1]) && is_char_digit(s[2]) && s[3] == '/'
        && is_char_digit(s[4]) && is_char_digit(s[5]) && is_char_digit(s[6]) {
        if triple_val(s, 0) > 360 {
            Err(SpecErr::Course(s))
        } else {
            Ok(DataExtension::CourseSpeed(triple_val(s, 0) as u16, triple_val(s, 4) as u16))
        }
    } else if s[0] == 'P' && s[1] == 'H' && s[2] == 'G' && four_digits_at(s, 3) {
        Ok(
            DataExtension::StationPower(
                char_digit_val(s[3]) as u8,
                char_digit_val(s[4]) as u8,
                char_digit_val(s[5]) as u8,
                char_digit_val(s[6]) as u8,
            ),
        )
    } else if s[0] == 'R' && s[1] == 'N' && s[2] == 'G' && four_digits_at(s, 3) {
        Ok(
            DataExtension::RadioRange(
                (char_digit_val(s[3]) * 1000 + char_digit_val(s[4]) * 100 + char_digit_val(s[5])
                    * 10 + char_digit_val(s[6])) as u16,
            ),
        )
    } else if s[0] == 'D' && s[1] == 'F' && s[2] == 'S' && four_digits_at(s, 3) {
        Ok(
            DataExtension::SignalStrength(
                char_digit_val(s[3]) as u8,
                char_digit_val(s[4]) as u8,
                char_digit_val(s[5]) as u8,
                char_digit_val(s[6]) as u8,
            ),
        )
    } else {
        Err(SpecErr::DataExtension(s))
    }
}

impl DataExtension {
    /// Parses the 7-character data extension token `s`, per
    /// [`spec_parse_data_extension`].
    pub fn from_str(s: &str) -> (r: Result<DataExtension, AprsError>)
        requires
            s@.len() == 7,
        ensures
            result_matches(r, spec_parse_data_extension(s@)),
    {
        let c0 = s.get_char(0);
        let c1 = s.get_char(1);
        let c2 = s.get_char(2);
        let c3 = s.get_char(3);
        let c4 = s.get_char(4);
        let c5 = s.get_char(5);
        let c6 = s.get_char(6);
        if char_is_digit(c0) && char_is_digit(c1) && char_is_digit(c2) && c3 == '/'
            && char_is_digit(c4) && char_is_digit(c5) && char_is_digit(c6) {
            let course: u16 = char_digit(c0) as u16 * 100 + char_digit(c1) as u16 * 10 + char_digit(
                c2,
            ) as u16;
            if course > 360 {
                return Err(AprsError::InvalidCourse(s.to_owned()));
            }
            let speed: u16 = char_digit(c4) as u16 * 100 + char_digit(c5) as u16 * 10 + char_digit(
                c6,
            ) as u16;
            Ok(DataExtension::CourseSpeed(course, speed))
        } else if c0 == 'P' && c1 == 'H' && c2 == 'G' && char_is_digit(c3) && char_is_digit(c4)
            && char_is_digit(c5) && char_is_digit(c6) {
            Ok(
                DataExtension::StationPower(
                    char_digit(c3),
                    char_digit(c4),
                    char_digit(c5),
                    char_digit(c6),
                ),
            )
        } else if c0 == 'R' && c1 == 'N' && c2 == 'G' && char_is_digit(c3) && char_is_digit(c4)
            && char_is_digit(c5) && char_is_digit(c6) {
            let range: u16 = char_digit(c3) as u16 * 1000 + char_digit(c4) as u16 * 100
                + char_digit(c5) as u16 * 10 + char_digit(c6) as u16;
            Ok(DataExtension::RadioRange(range))
        } else if c0 == 'D' && c1 == 'F' && c2 == 'S' && char_is_digit(c3) && char_is_digit(c4)
            && char_is_digit(c5) && char_is_digit(c6) {
            Ok(
                DataExtension::SignalStrength(
                    char_digit(c3),
                    char_digit(c4),
                    char_digit(c5),
                    char_digit(c6),
                ),
            )
        } else {
            Err(AprsError::InvalidDataExtension(s.to_owned()))
        }
    }
}

/// The altitude marker `/A=` starts at index `i` of `b`.
pub open spec fn marker_at(b: Seq<u8>, i: int) -> bool {
    0 <= i && i + 3 <= b.len() && b[i] == 47 && b[i + 1] == 65 && b[i + 2] == 61
}

/// The first index where the altitude marker starts, or -1 when `b` has
/// none.
pub open spec fn spec_find_marker(b: Seq<u8>) -> int
    decreases b.len(),
{
    if b.len() < 3 {
        -1
    } else if b[0] == 47 && b[1] == 65 && b[2] == 61 {
        0
    } else {
        let r = spec_find_marker(b.skip(1));
        if r < 0 {
            -1
        } else {
            r + 1
        }
    }
}

/// What [`spec_find_marker`] means, index by index.
pub proof fn lemma_find_marker(b: Seq<u8>)
    ensures
        spec_find_marker(b) == -1 ==> forall|i: int| !marker_at(b, i),
        spec_find_marker(b) >= 0 ==> marker_at(b, spec_find_marker(b)) && forall|i: int|
            0 <= i < spec_find_marker(b) ==> !marker_at(b, i),
    decreases b.len(),
{
    if b.len() >= 3 && !(b[0] == 47 && b[1] == 65 && b[2] == 61) {
        lemma_find_marker(b.skip(1));
        let r = spec_find_marker(b.skip(1));
        assert forall|i: int| 1 <= i && i + 3 <= b.len() implies (marker_at(b, i) <==> marker_at(
            b.skip(1),
            i - 1,
        )) by {
            assert(b.skip(1)[i - 1] == b[i]);
            assert(b.skip(1)[i] == b[i + 1]);
            assert(b.skip(1)[i + 1] == b[i + 2]);
        }
        if r == -1 {
            assert(forall|i: int| !marker_at(b, i));
        }
    }
}

/// If a marker starts at `k` and none starts earlier, `k` is the first.
pub proof fn lemma_find_marker_converse(b: Seq<u8>, k: int)
    requires
        marker_at(b, k),
        forall|i: int| 0 <= i < k ==> !marker_at(b, i),
    ensures
        spec_find_marker(b) == k,
    decreases b.len(),
{
    if k > 0 {
        assert(!marker_at(b, 0));
        assert(marker_at(b.skip(1), k - 1)) by {
            assert(b.skip(1)[k - 1] == b[k]);
            assert(b.skip(1)[k] == b[k + 1]);
            assert(b.skip(1)[k + 1] == b[k + 2]);
        }
        assert forall|i: int| 0 <= i < k - 1 implies !marker_at(b.skip(1), i) by {
            assert(!marker_at(b, i + 1));
            if i + 3 <= b.skip(1).len() {
                assert(b.skip(1)[i] == b[i + 1]);
                assert(b.skip(1)[i + 1] == b[i + 2]);
                assert(b.skip(1)[i + 2] == b[i + 3]);
            }
        }
        lemma_find_marker_converse(b.skip(1), k - 1);
    }
}

/// Six ASCII digits follow the marker at `i`.
pub open spec fn altitude_digits_at(b: Seq<u8>, i: int) -> bool {
    i + 9 <= b.len() && is_digit(b[i + 3]) && is_digit(b[i + 4]) && is_digit(b[i + 5]) && is_digit(
        b[i + 6],
    ) && is_digit(b[i + 7]) && is_digit(b[i + 8])
}

/// The feet value of the six digits following the marker at `i`.
pub open spec fn altitude_value_at(b: Seq<u8>, i: int) -> int {
    digit_val(b[i + 3]) * 100_000 + digit_val(b[i + 4]) * 10_000 + digit_val(b[i + 5]) * 1_000
        + digit_val(b[i + 6]) * 100 + digit_val(b[i + 7]) * 10 + digit_val(b[i + 8])
}

/// What extracting the altitude token from a comment yields: when the
/// first `/A=` is followed by six digits, their value in feet and the
/// comment with those nine bytes removed; otherwise no altitude and the
/// comment untouched.
pub open spec fn spec_extract_altitude(b: Seq<u8>) -> (Option<u32>, Seq<u8>) {
    let i = spec_find_marker(b);
    if i >= 0 && altitude_digits_at(b, i) {
        (Some(altitude_value_at(b, i) as u32), b.take(i) + b.skip(i + 9))
    } else {
        (None, b)
    }
}

/// Extracts the trailing altitude token `/A=NNNNNN` from a comment, per
/// [`spec_extract_altitude`].
pub fn extract_altitude(b: &[u8]) -> (r: (Option<u32>, Vec<u8>))
    ensures
        r.0 == spec_extract_altitude(b@).0,
        r.1@ == spec_extract_altitude(b@).1,
{
    let len = b.len();
    let mut i: usize = 0;
    while i < len && len - i >= 3
        invariant
            len == b@.len(),
            i <= len,
            forall|j: int| 0 <= j < i ==> !marker_at(b@, j),
        decreases len - i,
    {
        if *slice_index_get(b, i) == 47 && *slice_index_get(b, i + 1) == 65 && *slice_index_get(
            b,
            i + 2,
        ) == 61 {
            proof {
                lemma_find_marker_converse(b@, i as int);
            }
            if len - i >= 9 {
                let d0 = *slice_index_get(b, i + 3);
                let d1 = *slice_index_get(b, i + 4);
                let d2 = *slice_index_get(b, i + 5);
                let d3 = *slice_index_get(b, i + 6);
                let d4 = *slice_index_get(b, i + 7);
                let d5 = *slice_index_get(b, i + 8);
                if byte_is_digit(d0) && byte_is_digit(d1) && byte_is_digit(d2) && byte_is_digit(d3)
                    && byte_is_digit(d4) && byte_is_digit(d5) {
                    let feet: u32 = (d0 - 48) as u32 * 100_000 + (d1 - 48) as u32 * 10_000 + (d2
                        - 48) as u32 * 1_000 + (d3 - 48) as u32 * 100 + (d4 - 48) as u32 * 10 + (d5
                        - 48) as u32;
                    let mut rest = slice_to_vec(slice_subrange(b, 0, i));
                    rest.extend_from_slice(slice_subrange(b, i + 9, len));
                    return (Some(feet), rest);
                }
            }
            return (None, slice_to_vec(b));
        }
        i += 1;
    }
    proof {
        lemma_find_marker(b@);
        if spec_find_marker(b@) >= 0 {
            assert(marker_at(b@, spec_find_marker(b@)));
        }
    }
    (None, slice_to_vec(b))
}

} // verus!
