//! Latitude and longitude, with both wire encodings.
//!
//! A coordinate is stored as an exact fixed-point degree value: an `i64`
//! count of units of 1/1_142_778_000 degree.  That scale is the least common
//! multiple of the two wire resolutions, so both construction paths are
//! exact:
//!
//! - the uncompressed text `DDMM.mmH` denotes a whole number of hundredths
//!   of a minute, i.e. of 1/6000 degree, and one hundredth of a minute is
//!   190_463 units;
//! - a compressed base-91 quadruple denotes a whole number of ticks of
//!   1/380_926 degree (latitude, 3_000 units each) or of 1/190_463 degree
//!   (longitude, 6_000 units each).
//!
//! Because parsing is exact, each encoder recovers the original wire bytes
//! by integer arithmetic alone; the rounding in the encoders only matters
//! for values that did not come from the matching parser.

use vstd::prelude::*;

use crate::digits::{byte_is_digit, digit_val, is_digit, pair_val, three_digits, two_digits};
use crate::digits::{lemma_pair_two_digits, push_three_digits, push_two_digits, read_pair};
use crate::error::{result_matches, AprsError, SpecErr};
use vstd::arithmetic::div_mod::lemma_fundamental_div_mod_converse;
use vstd::slice::{slice_index_get, slice_to_vec};

verus! {

/// Fixed-point units in one degree.
pub const UNITS_PER_DEGREE: i64 = 1_142_778_000;

/// Fixed-point units in one hundredth of an arc minute.
pub const UNITS_PER_CMIN: i64 = 190_463;

/// Fixed-point units in one compressed latitude tick (1/380_926 degree).
pub const LAT_UNITS_PER_TICK: i64 = 3_000;

/// Fixed-point units in one compressed longitude tick (1/190_463 degree).
pub const LON_UNITS_PER_TICK: i64 = 6_000;

/// The offset both compressed formulas subtract: 90 degrees is 34_283_340
/// latitude ticks, and 180 degrees is 34_283_340 longitude ticks.
pub const COMPRESSED_OFFSET_TICKS: i64 = 34_283_340;

/// The largest value a base-91 quadruple can denote (91^4 - 1).
pub const B91_MAX: i64 = 68_574_960;

/// A latitude, in fixed-point degrees ([`UNITS_PER_DEGREE`] units each).
/// Positive is north.
#[derive(Debug, Clone, Copy, PartialEq)]
pub struct Latitude(pub i64);

/// A longitude, in fixed-point degrees ([`UNITS_PER_DEGREE`] units each).
/// Positive is east.
#[derive(Debug, Clone, Copy, PartialEq)]
pub struct Longitude(pub i64);

/// Every latitude either parser can produce: at most 101 degrees from zero.
/// (The text form can denote up to 100.7 degrees when its minute field
/// exceeds 59; the compressed form reaches just past 90.)
pub open spec fn latitude_wf(lat: Latitude) -> bool {
    -101 * UNITS_PER_DEGREE <= lat.0 <= 101 * UNITS_PER_DEGREE
}

/// Every longitude either parser can produce: at most 1001 degrees from
/// zero (the text form has a three-digit degree field).
pub open spec fn longitude_wf(lon: Longitude) -> bool {
    -1001 * UNITS_PER_DEGREE <= lon.0 <= 1001 * UNITS_PER_DEGREE
}

// ---------------------------------------------------------------------------
// Base-91 quadruples
// ---------------------------------------------------------------------------

/// `b` is in the printable range a base-91 digit may use.
pub open spec fn is_b91(b: u8) -> bool {
    33 <= b <= 123
}

/// The value of the 4-byte big-endian base-91 quadruple `b`.
pub open spec fn b91_val(b: Seq<u8>) -> int
    recommends
        b.len() == 4,
{
    (b[0] - 33) * 753_571 + (b[1] - 33) * 8_281 + (b[2] - 33) * 91 + (b[3] - 33)
}

/// The 4-byte base-91 quadruple denoting `v` (meaningful for
/// `0 <= v <= B91_MAX`).
pub open spec fn b91_digits(v: int) -> Seq<u8> {
    seq![
        (33 + (v / 753_571) % 91) as u8,
        (33 + (v / 8_281) % 91) as u8,
        (33 + (v / 91) % 91) as u8,
        (33 + v % 91) as u8,
    ]
}

/// Reading a base-91 quadruple and writing its value back reproduces the
/// original four bytes.
pub proof fn lemma_b91_digits_of_val(b: Seq<u8>)
    requires
        b.len() == 4,
        is_b91(b[0]),
        is_b91(b[1]),
        is_b91(b[2]),
        is_b91(b[3]),
    ensures
        b91_digits(b91_val(b)) == b,
        0 <= b91_val(b) <= B91_MAX,
{
    let d0 = b[0] - 33;
    let d1 = b[1] - 33;
    let d2 = b[2] - 33;
    let d3 = b[3] - 33;
    let v = b91_val(b);
    lemma_fundamental_div_mod_converse(v, 753_571, d0, d1 * 8_281 + d2 * 91 + d3);
    lemma_fundamental_div_mod_converse(v, 8_281, d0 * 91 + d1, d2 * 91 + d3);
    lemma_fundamental_div_mod_converse(d0 * 91 + d1, 91, d0, d1);
    lemma_fundamental_div_mod_converse(v, 91, d0 * 8_281 + d1 * 91 + d2, d3);
    lemma_fundamental_div_mod_converse(d0 * 8_281 + d1 * 91 + d2, 91, d0 * 91 + d1, d2);
    assert(b91_digits(v) =~= b);
}

/// Writing any representable value as base-91 and reading it back is the
/// identity, and the written bytes are in range.
pub proof fn lemma_b91_val_of_digits(v: int)
    requires
        0 <= v <= B91_MAX,
    ensures
        b91_val(b91_digits(v)) == v,
        is_b91(b91_digits(v)[0]),
        is_b91(b91_digits(v)[1]),
        is_b91(b91_digits(v)[2]),
        is_b91(b91_digits(v)[3]),
{
    let d0 = v / 753_571;
    let r0 = v % 753_571;
    vstd::arithmetic::div_mod::lemma_fundamental_div_mod(v, 753_571);
    let d1 = r0 / 8_281;
    let r1 = r0 % 8_281;
    vstd::arithmetic::div_mod::lemma_fundamental_div_mod(r0, 8_281);
    let d2 = r1 / 91;
    let d3 = r1 % 91;
    vstd::arithmetic::div_mod::lemma_fundamental_div_mod(r1, 91);
    lemma_fundamental_div_mod_converse(v, 8_281, d0 * 91 + d1, r1);
    lemma_fundamental_div_mod_converse(v, 91, (d0 * 91 + d1) * 91 + d2, d3);
}

/// Reads a 4-byte base-91 quadruple; `None` when a byte is out of range.
fn read_b91(b: &[u8]) -> (r: Option<i64>)
    requires
        b@.len() == 4,
    ensures
        match r {
            Some(v) => is_b91(b@[0]) && is_b91(b@[1]) && is_b91(b@[2]) && is_b91(b@[3])
                && v == b91_val(b@) && 0 <= v <= B91_MAX,
            None => !(is_b91(b@[0]) && is_b91(b@[1]) && is_b91(b@[2]) && is_b91(b@[3])),
        },
{
    let b0 = *slice_index_get(b, 0);
    let b1 = *slice_index_get(b, 1);
    let b2 = *slice_index_get(b, 2);
    let b3 = *slice_index_get(b, 3);
    if 33 <= b0 && b0 <= 123 && 33 <= b1 && b1 <= 123 && 33 <= b2 && b2 <= 123 && 33 <= b3
        && b3 <= 123 {
        let v: i64 = (b0 - 33) as i64 * 753_571 + (b1 - 33) as i64 * 8_281 + (b2 - 33) as i64 * 91
            + (b3 - 33) as i64;
        Some(v)
    } else {
        None
    }
}

/// Appends the base-91 quadruple for `v` to `buf`.
fn push_b91(buf: &mut Vec<u8>, v: i64)
    requires
        0 <= v <= B91_MAX,
    ensures
        final(buf)@ == old(buf)@ + b91_digits(v as int),
{
    buf.push((33 + (v / 753_571) % 91) as u8);
    buf.push((33 + (v / 8_281) % 91) as u8);
    buf.push((33 + (v / 91) % 91) as u8);
    buf.push((33 + v % 91) as u8);
    assert(buf@ =~= old(buf)@ + b91_digits(v as int));
}

// ---------------------------------------------------------------------------
// Latitude
// ---------------------------------------------------------------------------

/// What parsing 8 bytes of uncompressed latitude text `DDMM.mmH` yields:
/// degrees, minutes and hundredths of a minute must be digits, byte 4 the
/// decimal point, and the hemisphere `N` or `S` (`S` negates).  The value
/// is exact: `(6000*DD + 100*MM + mm)` hundredths of a minute.
pub open spec fn spec_parse_lat_uncompressed(b: Seq<u8>) -> Result<Latitude, SpecErr> {
    if b.len() == 8 && is_digit(b[0]) && is_digit(b[1]) && is_digit(b[2]) && is_digit(b[3])
        && b[4] == 46 && is_digit(b[5]) && is_digit(b[6]) && (b[7] == 78 || b[7] == 83) {
        let n = pair_val(b[0], b[1]) * 6000 + pair_val(b[2], b[3]) * 100 + pair_val(b[5], b[6]);
        let u = n * (UNITS_PER_CMIN as int);
        Ok(Latitude((if b[7] == 83 { -u } else { u }) as i64))
    } else {
        Err(SpecErr::Position(b))
    }
}

/// What parsing a 4-byte compressed latitude yields: all bytes must be in
/// the base-91 range; the value is `90 - v/380_926` degrees, exact in
/// fixed point.
pub open spec fn spec_parse_lat_compressed(b: Seq<u8>) -> Result<Latitude, SpecErr> {
    if b.len() == 4 && is_b91(b[0]) && is_b91(b[1]) && is_b91(b[2]) && is_b91(b[3]) {
        Ok(Latitude((((COMPRESSED_OFFSET_TICKS as int) - b91_val(b)) * (LAT_UNITS_PER_TICK
            as int)) as i64))
    } else {
        Err(SpecErr::Position(b))
    }
}

/// The total hundredths of a minute the uncompressed encoder writes for
/// `lat`: the magnitude rounded to the nearest hundredth of a minute.
pub open spec fn lat_total_cmin(lat: Latitude) -> int {
    let a = if lat.0 < 0 { -(lat.0 as int) } else { lat.0 as int };
    (a + 95_231) / (UNITS_PER_CMIN as int)
}

/// The 8 bytes of uncompressed latitude text for `lat`.
pub open spec fn spec_encode_lat_uncompressed(lat: Latitude) -> Seq<u8> {
    let n = lat_total_cmin(lat);
    two_digits(n / 6000) + two_digits((n % 6000) / 100) + seq![46u8] + two_digits(n % 100)
        + seq![(if lat.0 < 0 { 83u8 } else { 78u8 })]
}

/// The base-91 tick count the compressed encoder writes for `lat`:
/// `90 - lat` degrees in ticks of 1/380_926 degree, rounded to nearest.
pub open spec fn lat_compressed_ticks(lat: Latitude) -> int {
    ((COMPRESSED_OFFSET_TICKS as int) * (LAT_UNITS_PER_TICK as int) + 1500 - lat.0 as int) / (
    LAT_UNITS_PER_TICK as int)
}

/// `lat` is near enough to the compressed band that its tick count fits in
/// four base-91 digits.
pub open spec fn lat_compressed_encodable(lat: Latitude) -> bool {
    0 <= lat_compressed_ticks(lat) <= B91_MAX as int
}

/// The 4 compressed bytes for `lat`.
pub open spec fn spec_encode_lat_compressed(lat: Latitude) -> Seq<u8> {
    b91_digits(lat_compressed_ticks(lat))
}

/// Every latitude the uncompressed parser accepts re-encodes to the exact
/// input bytes, provided the minute field is below 60 and the input is not
/// a negative zero (`0000.00S`), the two cases where the encoder
/// normalizes.
pub proof fn lemma_lat_uncompressed_round_trip(b: Seq<u8>)
    requires
        spec_parse_lat_uncompressed(b) is Ok,
        pair_val(b[2], b[3]) < 60,
        !(b[7] == 83 && pair_val(b[0], b[1]) == 0 && pair_val(b[2], b[3]) == 0 && pair_val(
            b[5],
            b[6],
        ) == 0),
    ensures
        spec_encode_lat_uncompressed(spec_parse_lat_uncompressed(b)->Ok_0) == b,
{
    let d = pair_val(b[0], b[1]);
    let m = pair_val(b[2], b[3]);
    let c = pair_val(b[5], b[6]);
    let n = d * 6000 + m * 100 + c;
    let u = n * (UNITS_PER_CMIN as int);
    let lat = spec_parse_lat_uncompressed(b)->Ok_0;
    lemma_fundamental_div_mod_converse(u + 95_231, UNITS_PER_CMIN as int, n, 95_231);
    assert(lat_total_cmin(lat) == n);
    lemma_fundamental_div_mod_converse(n, 6000, d, m * 100 + c);
    lemma_fundamental_div_mod_converse(n, 100, d * 60 + m, c);
    lemma_fundamental_div_mod_converse(m * 100 + c, 100, m, c);
    lemma_pair_two_digits(b[0], b[1]);
    lemma_pair_two_digits(b[2], b[3]);
    lemma_pair_two_digits(b[5], b[6]);
    assert(spec_encode_lat_uncompressed(lat) =~= b);
}

/// Every latitude the compressed parser accepts is compressed-encodable
/// and re-encodes to the exact input bytes.
pub proof fn lemma_lat_compressed_round_trip(b: Seq<u8>)
    requires
        spec_parse_lat_compressed(b) is Ok,
    ensures
        lat_compressed_encodable(spec_parse_lat_compressed(b)->Ok_0),
        spec_encode_lat_compressed(spec_parse_lat_compressed(b)->Ok_0) == b,
{
    let v = b91_val(b);
    lemma_b91_digits_of_val(b);
    let lat = spec_parse_lat_compressed(b)->Ok_0;
    assert((COMPRESSED_OFFSET_TICKS as int) * (LAT_UNITS_PER_TICK as int) + 1500 - lat.0 as int
        == 3000 * v + 1500);
    lemma_fundamental_div_mod_converse(3000 * v + 1500, 3000, v, 1500);
    assert(lat_compressed_ticks(lat) == v);
}

impl Latitude {
    /// Parses the 8-byte uncompressed latitude `b`, per
    /// [`spec_parse_lat_uncompressed`].  An accepted latitude is
    /// well-formed.
    pub fn parse_uncompressed(b: &[u8]) -> (r: Result<Latitude, AprsError>)
        ensures
            result_matches(r, spec_parse_lat_uncompressed(b@)),
            r is Ok ==> latitude_wf(r->Ok_0),
    {
        if b.len() != 8 {
            return Err(AprsError::InvalidPosition(slice_to_vec(b)));
        }
        let b0 = *slice_index_get(b, 0);
        let b1 = *slice_index_get(b, 1);
        let b2 = *slice_index_get(b, 2);
        let b3 = *slice_index_get(b, 3);
        let b4 = *slice_index_get(b, 4);
        let b5 = *slice_index_get(b, 5);
        let b6 = *slice_index_get(b, 6);
        let b7 = *slice_index_get(b, 7);
        if byte_is_digit(b0) && byte_is_digit(b1) && byte_is_digit(b2) && byte_is_digit(b3)
            && b4 == 46 && byte_is_digit(b5) && byte_is_digit(b6) && (b7 == 78 || b7 == 83) {
            let n: i64 = read_pair(b0, b1) as i64 * 6000 + read_pair(b2, b3) as i64 * 100
                + read_pair(b5, b6) as i64;
            let u: i64 = n * UNITS_PER_CMIN;
            Ok(Latitude(if b7 == 83 { -u } else { u }))
        } else {
            Err(AprsError::InvalidPosition(slice_to_vec(b)))
        }
    }

    /// Parses the 4-byte compressed latitude `b`, per
    /// [`spec_parse_lat_compressed`].  An accepted latitude is well-formed
    /// and compressed-encodable.
    pub fn parse_compressed(b: &[u8]) -> (r: Result<Latitude, AprsError>)
        ensures
            result_matches(r, spec_parse_lat_compressed(b@)),
            r is Ok ==> latitude_wf(r->Ok_0) && lat_compressed_encodable(r->Ok_0),
    {
        if b.len() != 4 {
            return Err(AprsError::InvalidPosition(slice_to_vec(b)));
        }
        match read_b91(b) {
            Some(v) => {
                proof {
                    lemma_lat_compressed_round_trip(b@);
                }
                Ok(Latitude((COMPRESSED_OFFSET_TICKS - v) * LAT_UNITS_PER_TICK))
            },
            None => Err(AprsError::InvalidPosition(slice_to_vec(b))),
        }
    }

    /// Appends the 8-byte uncompressed text for `self` to `buf`.
    pub fn encode_uncompressed(&self, buf: &mut Vec<u8>)
        requires
            latitude_wf(*self),
        ensures
            final(buf)@ == old(buf)@ + spec_encode_lat_uncompressed(*self),
    {
        let neg = self.0 < 0;
        let a: i64 = if neg { -self.0 } else { self.0 };
        let n: i64 = (a + 95_231) / UNITS_PER_CMIN;
        push_two_digits(buf, (n / 6000) as u32);
        push_two_digits(buf, ((n % 6000) / 100) as u32);
        buf.push(46);
        push_two_digits(buf, (n % 100) as u32);
        buf.push(if neg { 83 } else { 78 });
        assert(buf@ =~= old(buf)@ + spec_encode_lat_uncompressed(*self));
    }

    /// Appends the 4 compressed bytes for `self` to `buf`.
    pub fn encode_compressed(&self, buf: &mut Vec<u8>)
        requires
            latitude_wf(*self),
            lat_compressed_encodable(*self),
        ensures
            final(buf)@ == old(buf)@ + spec_encode_lat_compressed(*self),
    {
        let num: i64 = COMPRESSED_OFFSET_TICKS * LAT_UNITS_PER_TICK + 1500 - self.0;
        proof {
            vstd::arithmetic::div_mod::lemma_fundamental_div_mod(num as int, 3000);
        }
        let ticks: i64 = num / LAT_UNITS_PER_TICK;
        push_b91(buf, ticks);
    }
}

// ---------------------------------------------------------------------------
// Longitude
// ---------------------------------------------------------------------------

/// What parsing 9 bytes of uncompressed longitude text `DDDMM.mmH` yields:
/// like latitude but with a three-digit degree field and hemisphere `E` or
/// `W` (`W` negates).
pub open spec fn spec_parse_lon_uncompressed(b: Seq<u8>) -> Result<Longitude, SpecErr> {
    if b.len() == 9 && is_digit(b[0]) && is_digit(b[1]) && is_digit(b[2]) && is_digit(b[3])
        && is_digit(b[4]) && b[5] == 46 && is_digit(b[6]) && is_digit(b[7]) && (b[8] == 69
        || b[8] == 87) {
        let n = (digit_val(b[0]) * 100 + pair_val(b[1], b[2])) * 6000 + pair_val(b[3], b[4]) * 100
            + pair_val(b[6], b[7]);
        let u = n * (UNITS_PER_CMIN as int);
        Ok(Longitude((if b[8] == 87 { -u } else { u }) as i64))
    } else {
        Err(SpecErr::Position(b))
    }
}

/// What parsing a 4-byte compressed longitude yields: all bytes must be in
/// the base-91 range; the value is `-180 + v/190_463` degrees, exact in
/// fixed point.
pub open spec fn spec_parse_lon_compressed(b: Seq<u8>) -> Result<Longitude, SpecErr> {
    if b.len() == 4 && is_b91(b[0]) && is_b91(b[1]) && is_b91(b[2]) && is_b91(b[3]) {
        Ok(Longitude(((b91_val(b) - (COMPRESSED_OFFSET_TICKS as int)) * (LON_UNITS_PER_TICK
            as int)) as i64))
    } else {
        Err(SpecErr::Position(b))
    }
}

/// The total hundredths of a minute the uncompressed encoder writes for
/// `lon`.
pub open spec fn lon_total_cmin(lon: Longitude) -> int {
    let a = if lon.0 < 0 { -(lon.0 as int) } else { lon.0 as int };
    (a + 95_231) / (UNITS_PER_CMIN as int)
}

/// The 9 bytes of uncompressed longitude text for `lon`.
pub open spec fn spec_encode_lon_uncompressed(lon: Longitude) -> Seq<u8> {
    let n = lon_total_cmin(lon);
    three_digits(n / 6000) + two_digits((n % 6000) / 100) + seq![46u8] + two_digits(n % 100)
        + seq![(if lon.0 < 0 { 87u8 } else { 69u8 })]
}

/// The base-91 tick count the compressed encoder writes for `lon`:
/// `lon + 180` degrees in ticks of 1/190_463 degree, rounded to nearest.
pub open spec fn lon_compressed_ticks(lon: Longitude) -> int {
    (lon.0 as int + (COMPRESSED_OFFSET_TICKS as int) * (LON_UNITS_PER_TICK as int) + 3000) / (
    LON_UNITS_PER_TICK as int)
}

/// `lon` is near enough to the compressed band that its tick count fits in
/// four base-91 digits.
pub open spec fn lon_compressed_encodable(lon: Longitude) -> bool {
    0 <= lon_compressed_ticks(lon) <= B91_MAX as int
}

/// The 4 compressed bytes for `lon`.
pub open spec fn spec_encode_lon_compressed(lon: Longitude) -> Seq<u8> {
    b91_digits(lon_compressed_ticks(lon))
}

/// Every longitude the uncompressed parser accepts re-encodes to the exact
/// input bytes, provided the minute field is below 60 and the input is not
/// a negative zero (`00000.00W`).
pub proof fn lemma_lon_uncompressed_round_trip(b: Seq<u8>)
    requires
        spec_parse_lon_uncompressed(b) is Ok,
        pair_val(b[3], b[4]) < 60,
        !(b[8] == 87 && digit_val(b[0]) == 0 && pair_val(b[1], b[2]) == 0 && pair_val(b[3], b[4])
            == 0 && pair_val(b[6], b[7]) == 0),
    ensures
        spec_encode_lon_uncompressed(spec_parse_lon_uncompressed(b)->Ok_0) == b,
{
    let d = digit_val(b[0]) * 100 + pair_val(b[1], b[2]);
    let m = pair_val(b[3], b[4]);
    let c = pair_val(b[6], b[7]);
    let n = d * 6000 + m * 100 + c;
    let u = n * (UNITS_PER_CMIN as int);
    let lon = spec_parse_lon_uncompressed(b)->Ok_0;
    lemma_fundamental_div_mod_converse(u + 95_231, UNITS_PER_CMIN as int, n, 95_231);
    assert(lon_total_cmin(lon) == n);
    lemma_fundamental_div_mod_converse(n, 6000, d, m * 100 + c);
    lemma_fundamental_div_mod_converse(n, 100, d * 60 + m, c);
    lemma_fundamental_div_mod_converse(m * 100 + c, 100, m, c);
    lemma_fundamental_div_mod_converse(d, 100, digit_val(b[0]), pair_val(b[1], b[2]));
    lemma_fundamental_div_mod_converse(d, 10, digit_val(b[0]) * 10 + digit_val(b[1]), digit_val(
        b[2],
    ));
    lemma_pair_two_digits(b[1], b[2]);
    lemma_pair_two_digits(b[3], b[4]);
    lemma_pair_two_digits(b[6], b[7]);
    assert(three_digits(d)[0] == b[0]);
    assert(three_digits(d)[1] == b[1]);
    assert(three_digits(d)[2] == b[2]);
    assert(spec_encode_lon_uncompressed(lon) =~= b);
}

/// Every longitude the compressed parser accepts is compressed-encodable
/// and re-encodes to the exact input bytes.
pub proof fn lemma_lon_compressed_round_trip(b: Seq<u8>)
    requires
        spec_parse_lon_compressed(b) is Ok,
    ensures
        lon_compressed_encodable(spec_parse_lon_compressed(b)->Ok_0),
        spec_encode_lon_compressed(spec_parse_lon_compressed(b)->Ok_0) == b,
{
    let v = b91_val(b);
    lemma_b91_digits_of_val(b);
    let lon = spec_parse_lon_compressed(b)->Ok_0;
    assert(lon.0 as int + (COMPRESSED_OFFSET_TICKS as int) * (LON_UNITS_PER_TICK as int) + 3000
        == 6000 * v + 3000);
    lemma_fundamental_div_mod_converse(6000 * v + 3000, 6000, v, 3000);
    assert(lon_compressed_ticks(lon) == v);
}

impl Longitude {
    /// Parses the 9-byte uncompressed longitude `b`, per
    /// [`spec_parse_lon_uncompressed`].  An accepted longitude is
    /// well-formed.
    pub fn parse_uncompressed(b: &[u8]) -> (r: Result<Longitude, AprsError>)
        ensures
            result_matches(r, spec_parse_lon_uncompressed(b@)),
            r is Ok ==> longitude_wf(r->Ok_0),
    {
        if b.len() != 9 {
            return Err(AprsError::InvalidPosition(slice_to_vec(b)));
        }
        let b0 = *slice_index_get(b, 0);
        let b1 = *slice_index_get(b, 1);
        let b2 = *slice_index_get(b, 2);
        let b3 = *slice_index_get(b, 3);
        let b4 = *slice_index_get(b, 4);
        let b5 = *slice_index_get(b, 5);
        let b6 = *slice_index_get(b, 6);
        let b7 = *slice_index_get(b, 7);
        let b8 = *slice_index_get(b, 8);
        if byte_is_digit(b0) && byte_is_digit(b1) && byte_is_digit(b2) && byte_is_digit(b3)
            && byte_is_digit(b4) && b5 == 46 && byte_is_digit(b6) && byte_is_digit(b7) && (b8 == 69
            || b8 == 87) {
            let n: i64 = ((b0 - 48) as i64 * 100 + read_pair(b1, b2) as i64) * 6000 + read_pair(
                b3,
                b4,
            ) as i64 * 100 + read_pair(b6, b7) as i64;
            let u: i64 = n * UNITS_PER_CMIN;
            Ok(Longitude(if b8 == 87 { -u } else { u }))
        } else {
            Err(AprsError::InvalidPosition(slice_to_vec(b)))
        }
    }

    /// Parses the 4-byte compressed longitude `b`, per
    /// [`spec_parse_lon_compressed`].  An accepted longitude is well-formed
    /// and compressed-encodable.
    pub fn parse_compressed(b: &[u8]) -> (r: Result<Longitude, AprsError>)
        ensures
            result_matches(r, spec_parse_lon_compressed(b@)),
            r is Ok ==> longitude_wf(r->Ok_0) && lon_compressed_encodable(r->Ok_0),
    {
        if b.len() != 4 {
            return Err(AprsError::InvalidPosition(slice_to_vec(b)));
        }
        match read_b91(b) {
            Some(v) => {
                proof {
                    lemma_lon_compressed_round_trip(b@);
                }
                Ok(Longitude((v - COMPRESSED_OFFSET_TICKS) * LON_UNITS_PER_TICK))
            },
            None => Err(AprsError::InvalidPosition(slice_to_vec(b))),
        }
    }

    /// Appends the 9-byte uncompressed text for `self` to `buf`.
    pub fn encode_uncompressed(&self, buf: &mut Vec<u8>)
        requires
            longitude_wf(*self),
        ensures
            final(buf)@ == old(buf)@ + spec_encode_lon_uncompressed(*self),
    {
        let neg = self.0 < 0;
        let a: i64 = if neg { -self.0 } else { self.0 };
        let n: i64 = (a + 95_231) / UNITS_PER_CMIN;
        push_three_digits(buf, (n / 6000) as u32);
        push_two_digits(buf, ((n % 6000) / 100) as u32);
        buf.push(46);
        push_two_digits(buf, (n % 100) as u32);
        buf.push(if neg { 87 } else { 69 });
        assert(buf@ =~= old(buf)@ + spec_encode_lon_uncompressed(*self));
    }

    /// Appends the 4 compressed bytes for `self` to `buf`.
    pub fn encode_compressed(&self, buf: &mut Vec<u8>)
        requires
            longitude_wf(*self),
            lon_compressed_encodable(*self),
        ensures
            final(buf)@ == old(buf)@ + spec_encode_lon_compressed(*self),
    {
        let num: i64 = self.0 + COMPRESSED_OFFSET_TICKS * LON_UNITS_PER_TICK + 3000;
        proof {
            vstd::arithmetic::div_mod::lemma_fundamental_div_mod(num as int, 6000);
        }
        let ticks: i64 = num / LON_UNITS_PER_TICK;
        push_b91(buf, ticks);
    }
}

} // verus!
