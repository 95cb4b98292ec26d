//! The position report codec, the core of the crate.
//!
//! A position body starts with a sigil that fixes two flags: `!` plain,
//! `=` messaging-capable, `/` timestamped, `@` timestamped and
//! messaging-capable.  A timestamped body continues with 7 timestamp
//! bytes.  The next byte picks the encoding family: an ASCII digit starts
//! the uncompressed text form, anything else the base-91 compressed form.
//! Whatever follows the fixed-width fields is the comment, kept verbatim.

use vstd::prelude::*;

use crate::compressed_cs::{cs_wf, spec_encode_cs, spec_parse_cs, AprsCompressedCs};
use crate::compression_type::{spec_type_byte, spec_type_of_byte, AprsCompressionType};
use crate::digits::{digit_val, is_digit, pair_val};
use crate::error::{err_matches, AprsError, SpecErr};
use crate::lonlat::{lat_compressed_encodable, latitude_wf, lon_compressed_encodable, longitude_wf};
use crate::lonlat::{
    spec_encode_lat_compressed, spec_encode_lat_uncompressed, spec_encode_lon_compressed,
    spec_encode_lon_uncompressed, spec_parse_lat_compressed, spec_parse_lat_uncompressed,
    spec_parse_lon_compressed, spec_parse_lon_uncompressed, Latitude, Longitude,
};
use crate::timestamp::{spec_encode_timestamp, spec_parse_timestamp, timestamp_wf, Timestamp};
use vstd::slice::{slice_index_get, slice_subrange, slice_to_vec};

verus! {

/// How the course/speed information of a position was transmitted.
#[derive(Debug, Clone, Copy, PartialEq)]
pub enum AprsCst {
    /// A compressed position with a cs field and its compression type.
    CompressedSome { cs: AprsCompressedCs, t: AprsCompressionType },
    /// A compressed position whose cs field is the "no data" escape.
    CompressedNone,
    /// An uncompressed position; any course/speed rides in the comment.
    Uncompressed,
}

/// A parsed position report.
#[derive(Debug, Clone, PartialEq)]
pub struct AprsPosition {
    pub timestamp: Option<Timestamp>,
    pub messaging_supported: bool,
    pub latitude: Latitude,
    pub longitude: Longitude,
    pub symbol_table: char,
    pub symbol_code: char,
    pub comment: Vec<u8>,
    pub cst: AprsCst,
}

/// The mathematical view of a position report: the same fields with the
/// comment as a byte sequence.
pub struct PositionView {
    pub timestamp: Option<Timestamp>,
    pub messaging_supported: bool,
    pub latitude: Latitude,
    pub longitude: Longitude,
    pub symbol_table: char,
    pub symbol_code: char,
    pub comment: Seq<u8>,
    pub cst: AprsCst,
}

impl View for AprsPosition {
    type V = PositionView;

    open spec fn view(&self) -> PositionView {
        PositionView {
            timestamp: self.timestamp,
            messaging_supported: self.messaging_supported,
            latitude: self.latitude,
            longitude: self.longitude,
            symbol_table: self.symbol_table,
            symbol_code: self.symbol_code,
            comment: self.comment@,
            cst: self.cst,
        }
    }
}

/// An executable position parse result agrees with a spec-level one.
pub open spec fn position_result_matches(
    r: Result<AprsPosition, AprsError>,
    s: Result<PositionView, SpecErr>,
) -> bool {
    match (r, s) {
        (Ok(v), Ok(w)) => v@ == w,
        (Err(e), Err(se)) => err_matches(e, se),
        _ => false,
    }
}

/// Every field of the report fits what its encoder can write: a valid
/// timestamp, byte-valued symbol characters, in-range coordinates, and,
/// for the compressed family, coordinates inside the band the base-91
/// quadruple can express and a well-formed cs field.
pub open spec fn position_wf(p: PositionView) -> bool {
    &&& match p.timestamp {
        Some(t) => timestamp_wf(t),
        None => true,
    }
    &&& (p.symbol_table as int) < 256
    &&& (p.symbol_code as int) < 256
    &&& latitude_wf(p.latitude)
    &&& longitude_wf(p.longitude)
    &&& match p.cst {
        AprsCst::CompressedSome { cs, t } => cs_wf(cs) && lat_compressed_encodable(p.latitude)
            && lon_compressed_encodable(p.longitude),
        AprsCst::CompressedNone => lat_compressed_encodable(p.latitude)
            && lon_compressed_encodable(p.longitude),
        AprsCst::Uncompressed => true,
    }
}

/// What parsing an uncompressed position body (after sigil and timestamp)
/// yields: at least 19 bytes — 8 of latitude, the symbol table byte, 9 of
/// longitude, the symbol code byte — and the rest is the verbatim comment.
pub open spec fn spec_parse_uncompressed(
    b: Seq<u8>,
    ts: Option<Timestamp>,
    messaging: bool,
) -> Result<PositionView, SpecErr> {
    if b.len() < 19 {
        Err(SpecErr::Position(b))
    } else {
        match spec_parse_lat_uncompressed(b.subrange(0, 8)) {
            Err(e) => Err(e),
            Ok(lat) => match spec_parse_lon_uncompressed(b.subrange(9, 18)) {
                Err(e) => Err(e),
                Ok(lon) => Ok(
                    PositionView {
                        timestamp: ts,
                        messaging_supported: messaging,
                        latitude: lat,
                        longitude: lon,
                        symbol_table: b[8] as char,
                        symbol_code: b[18] as char,
                        comment: b.skip(19),
                        cst: AprsCst::Uncompressed,
                    },
                ),
            },
        }
    }
}

/// What parsing a compressed position body yields: at least 13 bytes — the
/// symbol table byte, 4+4 base-91 coordinate bytes, the symbol code byte,
/// the 2-byte cs field and the compression-type byte — and the rest is the
/// verbatim comment.  A space as the first cs byte means "no cs data" and
/// leaves the other two bytes uninterpreted; otherwise the type byte must
/// be at least 33 and the cs bytes must decode under it.
pub open spec fn spec_parse_compressed(
    b: Seq<u8>,
    ts: Option<Timestamp>,
    messaging: bool,
) -> Result<PositionView, SpecErr> {
    if b.len() < 13 {
        Err(SpecErr::Position(b))
    } else {
        match spec_parse_lat_compressed(b.subrange(1, 5)) {
            Err(e) => Err(e),
            Ok(lat) => match spec_parse_lon_compressed(b.subrange(5, 9)) {
                Err(e) => Err(e),
                Ok(lon) => {
                    let view = PositionView {
                        timestamp: ts,
                        messaging_supported: messaging,
                        latitude: lat,
                        longitude: lon,
                        symbol_table: b[0] as char,
                        symbol_code: b[9] as char,
                        comment: b.skip(13),
                        cst: AprsCst::CompressedNone,
                    };
                    if b[10] == 32 {
                        Ok(view)
                    } else if b[12] < 33 {
                        Err(SpecErr::Position(b))
                    } else {
                        let t = spec_type_of_byte((b[12] - 33) as u8);
                        match spec_parse_cs(b[10], b[11], t) {
                            Err(e) => Err(e),
                            Ok(cs) => Ok(
                                PositionView {
                                    cst: AprsCst::CompressedSome { cs, t },
                                    ..view
                                },
                            ),
                        }
                    }
                },
            },
        }
    }
}

/// What parsing a position body after the prefix yields: a leading ASCII
/// digit selects the uncompressed family, anything else (or nothing) the
/// compressed one.
pub open spec fn spec_parse_position_body(
    b: Seq<u8>,
    ts: Option<Timestamp>,
    messaging: bool,
) -> Result<PositionView, SpecErr> {
    if b.len() > 0 && is_digit(b[0]) {
        spec_parse_uncompressed(b, ts, messaging)
    } else {
        spec_parse_compressed(b, ts, messaging)
    }
}

/// What parsing a whole position report yields.  The sigil must be one of
/// `!`, `=`, `/`, `@`; the two timestamped sigils consume 7 timestamp
/// bytes next, whose failure propagates as an invalid timestamp.
pub open spec fn spec_parse_position(b: Seq<u8>) -> Result<PositionView, SpecErr> {
    if b.len() == 0 {
        Err(SpecErr::Position(Seq::empty()))
    } else if b[0] == 33 || b[0] == 61 {
        spec_parse_position_body(b.skip(1), None, b[0] == 61)
    } else if b[0] == 47 || b[0] == 64 {
        if b.len() < 8 {
            Err(SpecErr::Position(b))
        } else {
            match spec_parse_timestamp(b.subrange(1, 8)) {
                Err(e) => Err(e),
                Ok(ts) => spec_parse_position_body(b.skip(8), Some(ts), b[0] == 64),
            }
        }
    } else {
        Err(SpecErr::Position(b))
    }
}

impl AprsPosition {
    /// Parses an uncompressed position body, per
    /// [`spec_parse_uncompressed`].  An accepted report is well-formed.
    fn parse_uncompressed(b: &[u8], timestamp: Option<Timestamp>, messaging_supported: bool) -> (r:
        Result<AprsPosition, AprsError>)
        requires
            match timestamp {
                Some(t) => timestamp_wf(t),
                None => true,
            },
        ensures
            position_result_matches(r, spec_parse_uncompressed(b@, timestamp, messaging_supported)),
            r is Ok ==> position_wf(r->Ok_0@),
    {
        if b.len() < 19 {
            return Err(AprsError::InvalidPosition(slice_to_vec(b)));
        }
        let latitude = match Latitude::parse_uncompressed(slice_subrange(b, 0, 8)) {
            Ok(lat) => lat,
            Err(e) => {
                return Err(e);
            },
        };
        let longitude = match Longitude::parse_uncompressed(slice_subrange(b, 9, 18)) {
            Ok(lon) => lon,
            Err(e) => {
                return Err(e);
            },
        };
        let symbol_table = *slice_index_get(b, 8) as char;
        let symbol_code = *slice_index_get(b, 18) as char;
        let comment = slice_to_vec(slice_subrange(b, 19, b.len()));
        Ok(
            AprsPosition {
                timestamp,
                messaging_supported,
                latitude,
                longitude,
                symbol_table,
                symbol_code,
                comment,
                cst: AprsCst::Uncompressed,
            },
        )
    }

    /// Parses a compressed position body, per [`spec_parse_compressed`].
    /// An accepted report is well-formed.
    fn parse_compressed(b: &[u8], timestamp: Option<Timestamp>, messaging_supported: bool) -> (r:
        Result<AprsPosition, AprsError>)
        requires
            match timestamp {
                Some(t) => timestamp_wf(t),
                None => true,
            },
        ensures
            position_result_matches(r, spec_parse_compressed(b@, timestamp, messaging_supported)),
            r is Ok ==> position_wf(r->Ok_0@),
    {
        if b.len() < 13 {
            return Err(AprsError::InvalidPosition(slice_to_vec(b)));
        }
        let latitude = match Latitude::parse_compressed(slice_subrange(b, 1, 5)) {
            Ok(lat) => lat,
            Err(e) => {
                return Err(e);
            },
        };
        let longitude = match Longitude::parse_compressed(slice_subrange(b, 5, 9)) {
            Ok(lon) => lon,
            Err(e) => {
                return Err(e);
            },
        };
        let symbol_table = *slice_index_get(b, 0) as char;
        let symbol_code = *slice_index_get(b, 9) as char;
        let c = *slice_index_get(b, 10);
        let s = *slice_index_get(b, 11);
        let type_byte = *slice_index_get(b, 12);
        if c != 32 && type_byte < 33 {
            return Err(AprsError::InvalidPosition(slice_to_vec(b)));
        }
        let cst = if c == 32 {
            AprsCst::CompressedNone
        } else {
            let t = AprsCompressionType::from_byte(type_byte - 33);
            let cs = match AprsCompressedCs::parse(c, s, t) {
                Ok(cs) => cs,
                Err(e) => {
                    return Err(e);
                },
            };
            AprsCst::CompressedSome { cs, t }
        };
        let comment = slice_to_vec(slice_subrange(b, 13, b.len()));
        Ok(
            AprsPosition {
                timestamp,
                messaging_supported,
                latitude,
                longitude,
                symbol_table,
                symbol_code,
                comment,
                cst,
            },
        )
    }

    /// Parses a whole position report, per [`spec_parse_position`].  An
    /// accepted report is well-formed.
    pub fn try_from(b: &[u8]) -> (r: Result<AprsPosition, AprsError>)
        ensures
            position_result_matches(r, spec_parse_position(b@)),
            r is Ok ==> position_wf(r->Ok_0@),
    {
        if b.len() == 0 {
            return Err(AprsError::InvalidPosition(Vec::new()));
        }
        let first = *slice_index_get(b, 0);
        if first == 33 || first == 61 {
            let rest = slice_subrange(b, 1, b.len());
            Self::parse_body(rest, None, first == 61)
        } else if first == 47 || first == 64 {
            if b.len() < 8 {
                return Err(AprsError::InvalidPosition(slice_to_vec(b)));
            }
            let ts = match Timestamp::try_from(slice_subrange(b, 1, 8)) {
                Ok(ts) => ts,
                Err(e) => {
                    return Err(e);
                },
            };
            let rest = slice_subrange(b, 8, b.len());
            Self::parse_body(rest, Some(ts), first == 64)
        } else {
            Err(AprsError::InvalidPosition(slice_to_vec(b)))
        }
    }

    /// Dispatches a position body to its encoding family, per
    /// [`spec_parse_position_body`].
    fn parse_body(b: &[u8], timestamp: Option<Timestamp>, messaging_supported: bool) -> (r: Result<
        AprsPosition,
        AprsError,
    >)
        requires
            match timestamp {
                Some(t) => timestamp_wf(t),
                None => true,
            },
        ensures
            position_result_matches(
                r,
                spec_parse_position_body(b@, timestamp, messaging_supported),
            ),
            r is Ok ==> position_wf(r->Ok_0@),
    {
        let uncompressed = b.len() > 0 && {
            let b0 = *slice_index_get(b, 0);
            48 <= b0 && b0 <= 57
        };
        if uncompressed {
            Self::parse_uncompressed(b, timestamp, messaging_supported)
        } else {
            Self::parse_compressed(b, timestamp, messaging_supported)
        }
    }
}

/// The sigil the encoder writes: `@` for timestamped and
/// messaging-capable, `/` for timestamped only, `=` for messaging only,
/// `!` for neither.
pub open spec fn spec_sigil(p: PositionView) -> u8 {
    match (p.timestamp is Some, p.messaging_supported) {
        (true, true) => 64,
        (true, false) => 47,
        (false, true) => 61,
        (false, false) => 33,
    }
}

/// The uncompressed body bytes for `p`: latitude text, symbol table byte,
/// longitude text, symbol code byte, comment.
pub open spec fn spec_encode_uncompressed_body(p: PositionView) -> Seq<u8> {
    spec_encode_lat_uncompressed(p.latitude) + seq![(p.symbol_table as u8)]
        + spec_encode_lon_uncompressed(p.longitude) + seq![(p.symbol_code as u8)] + p.comment
}

/// The compressed body bytes for `p`: symbol table byte, 4+4 base-91
/// coordinate bytes, symbol code byte, then either the cs field with its
/// compression-type byte or the canonical absent marker ` sT`, and the
/// comment.
pub open spec fn spec_encode_compressed_body(
    p: PositionView,
    extra: Option<(AprsCompressedCs, AprsCompressionType)>,
) -> Seq<u8> {
    seq![(p.symbol_table as u8)] + spec_encode_lat_compressed(p.latitude)
        + spec_encode_lon_compressed(p.longitude) + seq![(p.symbol_code as u8)] + (match extra {
        Some((cs, t)) => spec_encode_cs(cs, t),
        None => seq![32u8, 115u8, 84u8],
    }) + p.comment
}

/// The whole wire encoding of `p`: sigil, timestamp if any, then the body
/// of the family recorded in `p.cst`.
pub open spec fn spec_encode_position(p: PositionView) -> Seq<u8> {
    seq![spec_sigil(p)] + (match p.timestamp {
        Some(t) => spec_encode_timestamp(t),
        None => Seq::empty(),
    }) + (match p.cst {
        AprsCst::Uncompressed => spec_encode_uncompressed_body(p),
        AprsCst::CompressedSome { cs, t } => spec_encode_compressed_body(p, Some((cs, t))),
        AprsCst::CompressedNone => spec_encode_compressed_body(p, None),
    })
}

impl AprsPosition {
    /// Appends the uncompressed body bytes for `self` to `buf`.
    pub fn encode_uncompressed(&self, buf: &mut Vec<u8>)
        requires
            latitude_wf(self.latitude),
            longitude_wf(self.longitude),
            (self.symbol_table as int) < 256,
            (self.symbol_code as int) < 256,
        ensures
            final(buf)@ == old(buf)@ + spec_encode_uncompressed_body(self@),
    {
        self.latitude.encode_uncompressed(buf);
        buf.push(self.symbol_table as u8);
        self.longitude.encode_uncompressed(buf);
        buf.push(self.symbol_code as u8);
        buf.extend_from_slice(self.comment.as_slice());
        assert(buf@ =~= old(buf)@ + spec_encode_uncompressed_body(self@));
    }

    /// Appends the compressed body bytes for `self` to `buf`, with the
    /// given cs field or the absent marker.
    pub fn encode_compressed(&self, buf: &mut Vec<u8>, extra: Option<
        (AprsCompressedCs, AprsCompressionType),
    >)
        requires
            latitude_wf(self.latitude),
            longitude_wf(self.longitude),
            lat_compressed_encodable(self.latitude),
            lon_compressed_encodable(self.longitude),
            (self.symbol_table as int) < 256,
            (self.symbol_code as int) < 256,
            match extra {
                Some((cs, t)) => cs_wf(cs),
                None => true,
            },
        ensures
            final(buf)@ == old(buf)@ + spec_encode_compressed_body(self@, extra),
    {
        buf.push(self.symbol_table as u8);
        self.latitude.encode_compressed(buf);
        self.longitude.encode_compressed(buf);
        buf.push(self.symbol_code as u8);
        match extra {
            Some((cs, t)) => {
                cs.encode(buf, t);
            },
            None => {
                buf.push(32);
                buf.push(115);
                buf.push(84);
            },
        }
        buf.extend_from_slice(self.comment.as_slice());
        assert(buf@ =~= old(buf)@ + spec_encode_compressed_body(self@, extra));
    }

    /// Appends the whole wire encoding of `self` to `buf`, per
    /// [`spec_encode_position`].
    pub fn encode(&self, buf: &mut Vec<u8>)
        requires
            position_wf(self@),
        ensures
            final(buf)@ == old(buf)@ + spec_encode_position(self@),
    {
        let sym: u8 = match (self.timestamp.is_some(), self.messaging_supported) {
            (true, true) => 64,
            (true, false) => 47,
            (false, true) => 61,
            (false, false) => 33,
        };
        buf.push(sym);
        if let Some(ts) = &self.timestamp {
            ts.encode(buf);
        }
        match self.cst {
            AprsCst::Uncompressed => self.encode_uncompressed(buf),
            AprsCst::CompressedSome { cs, t } => self.encode_compressed(buf, Some((cs, t))),
            AprsCst::CompressedNone => self.encode_compressed(buf, None),
        }
        assert(buf@ =~= old(buf)@ + spec_encode_position(self@));
    }
}

/// The inputs on which parsing keeps every byte.  The parser is lossy on
/// exactly four kinds of input, all of which the encoder normalizes: an
/// uncompressed minute field of 60 or more (carried into the degrees), an
/// uncompressed negative zero (re-encoded with `N`/`E`), a compressed
/// absent-marker whose uninterpreted tail bytes differ from the canonical
/// ` sT`, and a compression-type byte above 96 (its two highest bits carry
/// no meaning and are dropped).
pub open spec fn spec_position_lossless(b: Seq<u8>) -> bool
    recommends
        spec_parse_position(b) is Ok,
{
    let body = if b[0] == 47 || b[0] == 64 {
        b.skip(8)
    } else {
        b.skip(1)
    };
    if body.len() > 0 && is_digit(body[0]) {
        &&& pair_val(body[2], body[3]) < 60
        &&& pair_val(body[12], body[13]) < 60
        &&& !(body[7] == 83 && pair_val(body[0], body[1]) == 0 && pair_val(body[2], body[3]) == 0
            && pair_val(body[5], body[6]) == 0)
        &&& !(body[17] == 87 && digit_val(body[9]) == 0 && pair_val(body[10], body[11]) == 0
            && pair_val(body[12], body[13]) == 0 && pair_val(body[15], body[16]) == 0)
    } else {
        if body[10] == 32 {
            body[11] == 115 && body[12] == 84
        } else {
            body[12] <= 96
        }
    }
}

/// Round trip of an uncompressed body: every accepted body whose minute
/// fields are below 60 and which is not a negative zero re-encodes to its
/// exact input bytes.
proof fn lemma_uncompressed_body_round_trip(body: Seq<u8>, ts: Option<Timestamp>, msg: bool)
    requires
        spec_parse_uncompressed(body, ts, msg) is Ok,
        pair_val(body[2], body[3]) < 60,
        pair_val(body[12], body[13]) < 60,
        !(body[7] == 83 && pair_val(body[0], body[1]) == 0 && pair_val(body[2], body[3]) == 0
            && pair_val(body[5], body[6]) == 0),
        !(body[17] == 87 && digit_val(body[9]) == 0 && pair_val(body[10], body[11]) == 0
            && pair_val(body[12], body[13]) == 0 && pair_val(body[15], body[16]) == 0),
    ensures
        spec_encode_uncompressed_body(spec_parse_uncompressed(body, ts, msg)->Ok_0) == body,
{
    let p = spec_parse_uncompressed(body, ts, msg)->Ok_0;
    let lat8 = body.subrange(0, 8);
    let lon9 = body.subrange(9, 18);
    crate::lonlat::lemma_lat_uncompressed_round_trip(lat8);
    crate::lonlat::lemma_lon_uncompressed_round_trip(lon9);
    assert(spec_encode_lat_uncompressed(p.latitude) == lat8);
    assert(spec_encode_lon_uncompressed(p.longitude) == lon9);
    assert(spec_encode_uncompressed_body(p) =~= body);
}

/// Round trip of a compressed body: every accepted body whose absent
/// marker is canonical (or whose compression-type byte is below 97)
/// re-encodes to its exact input bytes.
proof fn lemma_compressed_body_round_trip(body: Seq<u8>, ts: Option<Timestamp>, msg: bool)
    requires
        spec_parse_compressed(body, ts, msg) is Ok,
        body[10] == 32 ==> body[11] == 115 && body[12] == 84,
        body[10] != 32 ==> body[12] <= 96,
    ensures
        ({
            let p = spec_parse_compressed(body, ts, msg)->Ok_0;
            let extra = match p.cst {
                AprsCst::CompressedSome { cs, t } => Some((cs, t)),
                _ => None::<(AprsCompressedCs, AprsCompressionType)>,
            };
            spec_encode_compressed_body(p, extra) == body
        }),
{
    let p = spec_parse_compressed(body, ts, msg)->Ok_0;
    let lat4 = body.subrange(1, 5);
    let lon4 = body.subrange(5, 9);
    crate::lonlat::lemma_lat_compressed_round_trip(lat4);
    crate::lonlat::lemma_lon_compressed_round_trip(lon4);
    assert(spec_encode_lat_compressed(p.latitude) == lat4);
    assert(spec_encode_lon_compressed(p.longitude) == lon4);
    if body[10] == 32 {
        assert(spec_encode_compressed_body(p, None) =~= body);
    } else {
        let tb = (body[12] - 33) as u8;
        let t = spec_type_of_byte(tb);
        crate::compressed_cs::lemma_cs_round_trip(body[10], body[11], t);
        crate::compression_type::lemma_type_round_trip(tb);
        let extra = Some((spec_parse_cs(body[10], body[11], t)->Ok_0, t));
        assert(spec_encode_compressed_body(p, extra) =~= body);
    }
}

/// Round trip of a whole position report: every accepted input on which
/// the parser is lossless (see [`spec_position_lossless`]) re-encodes,
/// byte for byte, to itself.
/// The body bytes the encoder writes for `p`, by the family recorded in
/// `p.cst`.
pub open spec fn spec_encode_position_body(p: PositionView) -> Seq<u8> {
    match p.cst {
        AprsCst::Uncompressed => spec_encode_uncompressed_body(p),
        AprsCst::CompressedSome { cs, t } => spec_encode_compressed_body(p, Some((cs, t))),
        AprsCst::CompressedNone => spec_encode_compressed_body(p, None),
    }
}

/// Round trip of a position body of either family.
proof fn lemma_body_round_trip(body: Seq<u8>, ts: Option<Timestamp>, msg: bool)
    requires
        spec_parse_position_body(body, ts, msg) is Ok,
        body.len() > 0 && is_digit(body[0]) ==> {
            &&& pair_val(body[2], body[3]) < 60
            &&& pair_val(body[12], body[13]) < 60
            &&& !(body[7] == 83 && pair_val(body[0], body[1]) == 0 && pair_val(body[2], body[3])
                == 0 && pair_val(body[5], body[6]) == 0)
            &&& !(body[17] == 87 && digit_val(body[9]) == 0 && pair_val(body[10], body[11]) == 0
                && pair_val(body[12], body[13]) == 0 && pair_val(body[15], body[16]) == 0)
        },
        !(body.len() > 0 && is_digit(body[0])) ==> {
            &&& body[10] == 32 ==> body[11] == 115 && body[12] == 84
            &&& body[10] != 32 ==> body[12] <= 96
        },
    ensures
        spec_encode_position_body(spec_parse_position_body(body, ts, msg)->Ok_0) == body,
        spec_parse_position_body(body, ts, msg)->Ok_0.timestamp == ts,
        spec_parse_position_body(body, ts, msg)->Ok_0.messaging_supported == msg,
{
    if body.len() > 0 && is_digit(body[0]) {
        lemma_uncompressed_body_round_trip(body, ts, msg);
    } else {
        lemma_compressed_body_round_trip(body, ts, msg);
    }
}

/// Round trip of a report without a timestamp prefix.
#[verifier::spinoff_prover]
#[verifier::rlimit(50)]
proof fn lemma_position_round_trip_plain(b: Seq<u8>)
    requires
        spec_parse_position(b) is Ok,
        spec_position_lossless(b),
        b[0] == 33 || b[0] == 61,
    ensures
        spec_encode_position(spec_parse_position(b)->Ok_0) == b,
{
    let p = spec_parse_position(b)->Ok_0;
    let body = b.skip(1);
    lemma_body_round_trip(body, None, b[0] == 61);
    assert(spec_sigil(p) == b[0]);
    assert(spec_encode_position(p) == seq![b[0]] + Seq::<u8>::empty()
        + spec_encode_position_body(p));
    assert(spec_encode_position(p) =~= b);
}

/// Round trip of a report with a timestamp prefix.
#[verifier::spinoff_prover]
#[verifier::rlimit(50)]
proof fn lemma_position_round_trip_timestamped(b: Seq<u8>)
    requires
        spec_parse_position(b) is Ok,
        spec_position_lossless(b),
        b[0] == 47 || b[0] == 64,
    ensures
        spec_encode_position(spec_parse_position(b)->Ok_0) == b,
{
    let p = spec_parse_position(b)->Ok_0;
    let prefix = b.subrange(1, 8);
    let body = b.skip(8);
    let ts = spec_parse_timestamp(prefix)->Ok_0;
    crate::timestamp::lemma_timestamp_round_trip(prefix);
    lemma_body_round_trip(body, Some(ts), b[0] == 64);
    assert(spec_sigil(p) == b[0]);
    assert(spec_encode_position(p) == seq![b[0]] + spec_encode_timestamp(ts)
        + spec_encode_position_body(p));
    assert(spec_encode_timestamp(ts) == prefix);
    assert(spec_encode_position(p) =~= b);
}

/// Round trip of a whole position report: every accepted input on which
/// the parser is lossless (see [`spec_position_lossless`]) re-encodes,
/// byte for byte, to itself.
pub proof fn lemma_position_round_trip(b: Seq<u8>)
    requires
        spec_parse_position(b) is Ok,
        spec_position_lossless(b),
    ensures
        spec_encode_position(spec_parse_position(b)->Ok_0) == b,
{
    if b[0] == 33 || b[0] == 61 {
        lemma_position_round_trip_plain(b);
    } else {
        lemma_position_round_trip_timestamped(b);
    }
}

/// A compressed cs field whose first byte is the space character yields
/// the absent marker, whatever the second cs byte and the compression-type
/// byte hold.
pub proof fn lemma_space_cs_yields_none(b: Seq<u8>)
    requires
        spec_parse_position(b) is Ok,
        ({
            let body = if b[0] == 47 || b[0] == 64 {
                b.skip(8)
            } else {
                b.skip(1)
            };
            !(body.len() > 0 && is_digit(body[0])) && body.len() >= 11 && body[10] == 32
        }),
    ensures
        spec_parse_position(b)->Ok_0.cst is CompressedNone,
{
}

} // verus!
