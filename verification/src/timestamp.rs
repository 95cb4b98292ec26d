//! The two fixed-width timestamp formats used throughout the protocol.
//!
//! A timestamp is exactly 7 bytes: three two-digit fields and a one-byte
//! format tag.  Tag `h` means hour/minute/second; tags `z` (UTC) and `/`
//! (local time) mean day/hour/minute.  The two day/hour/minute tags decode
//! to the same kind of value but are kept apart so that re-encoding restores
//! the original tag byte.

use vstd::prelude::*;

use crate::digits::{byte_is_digit, is_digit, pair_val, push_two_digits, read_pair, two_digits};
use crate::digits::{lemma_pair_two_digits, lemma_two_digits_val};
use crate::error::{result_matches, AprsError, SpecErr};

verus! {

/// A protocol timestamp.
#[derive(Debug, Clone, Copy, PartialEq, Eq)]
pub enum Timestamp {
    /// Day of month, hour and minute, in UTC (wire tag `z`).
    DDHHMM(u8, u8, u8),
    /// Day of month, hour and minute, in station-local time (wire tag `/`).
    DDHHMMLocal(u8, u8, u8),
    /// Hour, minute and second (wire tag `h`).
    HHMMSS(u8, u8, u8),
}

/// The fields lie in the ranges the wire grammar accepts: day 1–31,
/// hour 0–23, minute and second 0–59.
pub open spec fn timestamp_wf(t: Timestamp) -> bool {
    match t {
        Timestamp::DDHHMM(d, h, m) => 1 <= d <= 31 && h <= 23 && m <= 59,
        Timestamp::DDHHMMLocal(d, h, m) => 1 <= d <= 31 && h <= 23 && m <= 59,
        Timestamp::HHMMSS(h, m, s) => h <= 23 && m <= 59 && s <= 59,
    }
}

/// What parsing a 7-byte timestamp yields: the input must be exactly 7
/// bytes, bytes 0–5 must be digits, byte 6 selects the format, and each
/// field must be in range; anything else is an invalid timestamp carrying
/// the whole input.
pub open spec fn spec_parse_timestamp(b: Seq<u8>) -> Result<Timestamp, SpecErr> {
    if b.len() == 7 && is_digit(b[0]) && is_digit(b[1]) && is_digit(b[2]) && is_digit(b[3])
        && is_digit(b[4]) && is_digit(b[5]) {
        let v0 = pair_val(b[0], b[1]);
        let v1 = pair_val(b[2], b[3]);
        let v2 = pair_val(b[4], b[5]);
        if b[6] == 122 && 1 <= v0 <= 31 && v1 <= 23 && v2 <= 59 {
            Ok(Timestamp::DDHHMM(v0 as u8, v1 as u8, v2 as u8))
        } else if b[6] == 47 && 1 <= v0 <= 31 && v1 <= 23 && v2 <= 59 {
            Ok(Timestamp::DDHHMMLocal(v0 as u8, v1 as u8, v2 as u8))
        } else if b[6] == 104 && v0 <= 23 && v1 <= 59 && v2 <= 59 {
            Ok(Timestamp::HHMMSS(v0 as u8, v1 as u8, v2 as u8))
        } else {
            Err(SpecErr::Timestamp(b))
        }
    } else {
        Err(SpecErr::Timestamp(b))
    }
}

/// The 7 wire bytes for `t`: three zero-padded two-digit fields and the
/// format tag.
pub open spec fn spec_encode_timestamp(t: Timestamp) -> Seq<u8> {
    match t {
        Timestamp::DDHHMM(d, h, m) => two_digits(d as int) + two_digits(h as int)
            + two_digits(m as int) + seq![122u8],
        Timestamp::DDHHMMLocal(d, h, m) => two_digits(d as int) + two_digits(h as int)
            + two_digits(m as int) + seq![47u8],
        Timestamp::HHMMSS(h, m, s) => two_digits(h as int) + two_digits(m as int)
            + two_digits(s as int) + seq![104u8],
    }
}

/// Every timestamp the parser accepts re-encodes to the exact input bytes.
pub proof fn lemma_timestamp_round_trip(b: Seq<u8>)
    requires
        spec_parse_timestamp(b) is Ok,
    ensures
        spec_encode_timestamp(spec_parse_timestamp(b)->Ok_0) == b,
{
    lemma_pair_two_digits(b[0], b[1]);
    lemma_pair_two_digits(b[2], b[3]);
    lemma_pair_two_digits(b[4], b[5]);
    assert(spec_encode_timestamp(spec_parse_timestamp(b)->Ok_0) =~= b);
}

/// Every well-formed timestamp parses back from its own encoding.
pub proof fn lemma_timestamp_encode_parse(t: Timestamp)
    requires
        timestamp_wf(t),
    ensures
        spec_parse_timestamp(spec_encode_timestamp(t)) == Ok::<Timestamp, SpecErr>(t),
{
    let b = spec_encode_timestamp(t);
    let (f0, f1, f2) = match t {
        Timestamp::DDHHMM(d, h, m) => (d as int, h as int, m as int),
        Timestamp::DDHHMMLocal(d, h, m) => (d as int, h as int, m as int),
        Timestamp::HHMMSS(h, m, s) => (h as int, m as int, s as int),
    };
    lemma_two_digits_val(f0);
    lemma_two_digits_val(f1);
    lemma_two_digits_val(f2);
    assert(b[0] == two_digits(f0)[0] && b[1] == two_digits(f0)[1]);
    assert(b[2] == two_digits(f1)[0] && b[3] == two_digits(f1)[1]);
    assert(b[4] == two_digits(f2)[0] && b[5] == two_digits(f2)[1]);
    assert(pair_val(b[0], b[1]) == f0);
    assert(pair_val(b[2], b[3]) == f1);
    assert(pair_val(b[4], b[5]) == f2);
}

impl Timestamp {
    /// Parses the 7-byte timestamp `b`, per [`spec_parse_timestamp`].
    pub fn try_from(b: &[u8]) -> (r: Result<Timestamp, AprsError>)
        ensures
            result_matches(r, spec_parse_timestamp(b@)),
    {
        if b.len() != 7 {
            return Err(AprsError::InvalidTimestamp(vstd::slice::slice_to_vec(b)));
        }
        let b0 = *vstd::slice::slice_index_get(b, 0);
        let b1 = *vstd::slice::slice_index_get(b, 1);
        let b2 = *vstd::slice::slice_index_get(b, 2);
        let b3 = *vstd::slice::slice_index_get(b, 3);
        let b4 = *vstd::slice::slice_index_get(b, 4);
        let b5 = *vstd::slice::slice_index_get(b, 5);
        let b6 = *vstd::slice::slice_index_get(b, 6);
        if !(byte_is_digit(b0) && byte_is_digit(b1) && byte_is_digit(b2) && byte_is_digit(b3)
            && byte_is_digit(b4) && byte_is_digit(b5)) {
            return Err(AprsError::InvalidTimestamp(vstd::slice::slice_to_vec(b)));
        }
        let v0 = read_pair(b0, b1);
        let v1 = read_pair(b2, b3);
        let v2 = read_pair(b4, b5);
        if b6 == 122 && 1 <= v0 && v0 <= 31 && v1 <= 23 && v2 <= 59 {
            Ok(Timestamp::DDHHMM(v0, v1, v2))
        } else if b6 == 47 && 1 <= v0 && v0 <= 31 && v1 <= 23 && v2 <= 59 {
            Ok(Timestamp::DDHHMMLocal(v0, v1, v2))
        } else if b6 == 104 && v0 <= 23 && v1 <= 59 && v2 <= 59 {
            Ok(Timestamp::HHMMSS(v0, v1, v2))
        } else {
            Err(AprsError::InvalidTimestamp(vstd::slice::slice_to_vec(b)))
        }
    }

    /// Appends the 7 wire bytes of `self` to `buf`.
    pub fn encode(&self, buf: &mut Vec<u8>)
        requires
            timestamp_wf(*self),
        ensures
            final(buf)@ == old(buf)@ + spec_encode_timestamp(*self),
    {
        match *self {
            Timestamp::DDHHMM(d, h, m) => {
                push_two_digits(buf, d as u32);
                push_two_digits(buf, h as u32);
                push_two_digits(buf, m as u32);
                buf.push(122);
            },
            Timestamp::DDHHMMLocal(d, h, m) => {
                push_two_digits(buf, d as u32);
                push_two_digits(buf, h as u32);
                push_two_digits(buf, m as u32);
                buf.push(47);
            },
            Timestamp::HHMMSS(h, m, s) => {
                push_two_digits(buf, h as u32);
                push_two_digits(buf, m as u32);
                push_two_digits(buf, s as u32);
                buf.push(104);
            },
        }
        assert(buf@ =~= old(buf)@ + spec_encode_timestamp(*self));
    }
}

} // verus!
