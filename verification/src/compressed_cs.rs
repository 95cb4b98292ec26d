//! The 2-byte course/speed field of a compressed position.
//!
//! How the two bytes are read depends on the compression type: a GGA NMEA
//! source means they carry an altitude; otherwise a first byte of `{`
//! (value 123) means a pre-calculated radio range, and any other first byte
//! in the course band means course and speed.  The numeric transforms the
//! protocol applies to these fields are exponential (`1.08^x`, `1.002^x`),
//! so the stored representation keeps the exact wire code of each field:
//! the codes round-trip byte-for-byte, and a consumer applies the transform
//! itself when it needs the physical value.

use vstd::prelude::*;

use crate::compression_type::{AprsCompressionType, NmeaSource, spec_type_byte};
use crate::error::{result_matches, AprsError, SpecErr};
use vstd::arithmetic::div_mod::lemma_fundamental_div_mod_converse;

verus! {

/// A course over ground and a speed.  `course` is in degrees (a multiple
/// of 4, at most 356); the speed in knots is `1.08^speed_code - 1`.
#[derive(Debug, Clone, Copy, PartialEq, Eq)]
pub struct AprsCourseSpeed {
    pub course: u16,
    pub speed_code: u8,
}

/// A pre-calculated radio range: `2 * 1.08^range_code` miles.
#[derive(Debug, Clone, Copy, PartialEq, Eq)]
pub struct AprsRadioRange {
    pub range_code: u8,
}

/// An altitude: `1.002^(91*hi_code + lo_code)` feet.
#[derive(Debug, Clone, Copy, PartialEq, Eq)]
pub struct AprsAltitude {
    pub hi_code: u8,
    pub lo_code: u8,
}

/// The decoded 2-byte cs field of a compressed position.
#[derive(Debug, Clone, Copy, PartialEq, Eq)]
pub enum AprsCompressedCs {
    CourseSpeed(AprsCourseSpeed),
    RadioRange(AprsRadioRange),
    Altitude(AprsAltitude),
}

impl AprsCourseSpeed {
    /// A course/speed pair.  The wire format carries the course in steps
    /// of 4 degrees, so `course` must be such a step.
    pub fn new(course: u16, speed_code: u8) -> (r: AprsCourseSpeed)
        requires
            course % 4 == 0,
            course <= 356,
        ensures
            r == (AprsCourseSpeed { course, speed_code }),
    {
        AprsCourseSpeed { course, speed_code }
    }
}

impl AprsRadioRange {
    /// A radio range with the given exponent code.
    pub fn new(range_code: u8) -> (r: AprsRadioRange)
        ensures
            r == (AprsRadioRange { range_code }),
    {
        AprsRadioRange { range_code }
    }
}

impl AprsAltitude {
    /// An altitude with the given exponent code digits.
    pub fn new(hi_code: u8, lo_code: u8) -> (r: AprsAltitude)
        requires
            hi_code <= 90,
        ensures
            r == (AprsAltitude { hi_code, lo_code }),
    {
        AprsAltitude { hi_code, lo_code }
    }

    /// The combined exponent: the altitude in feet is `1.002^code()`.
    pub fn code(&self) -> (r: u16)
        requires
            self.hi_code <= 90,
        ensures
            r == 91 * self.hi_code + self.lo_code,
    {
        91 * (self.hi_code as u16) + (self.lo_code as u16)
    }
}

/// The field values fit the wire format: the course band covers 0–356
/// degrees in steps of 4, an altitude's high digit is a base-91 digit, and
/// every exponent code leaves room for the ASCII offset 33.
pub open spec fn cs_wf(cs: AprsCompressedCs) -> bool {
    match cs {
        AprsCompressedCs::CourseSpeed(c) => c.course % 4 == 0 && c.course <= 356 && c.speed_code
            <= 222,
        AprsCompressedCs::RadioRange(r) => r.range_code <= 222,
        AprsCompressedCs::Altitude(a) => a.hi_code <= 90 && a.lo_code <= 222,
    }
}

/// What decoding the cs bytes `c` and `s` under compression type `t`
/// yields.  A GGA source selects altitude; otherwise `c == 123` selects
/// radio range and the band 33–122 selects course/speed, the course being
/// `(c-33)*4` degrees.  Both bytes must be at least 33; a course byte
/// above 123 under a non-GGA source is invalid.  The error carries the two
/// offending bytes.
pub open spec fn spec_parse_cs(c: u8, s: u8, t: AprsCompressionType) -> Result<
    AprsCompressedCs,
    SpecErr,
> {
    if s < 33 {
        Err(SpecErr::Position(seq![c, s]))
    } else if t.nmea_source == NmeaSource::Gga {
        if 33 <= c <= 123 {
            Ok(AprsCompressedCs::Altitude(AprsAltitude { hi_code: (c - 33) as u8, lo_code: (s
                - 33) as u8 }))
        } else {
            Err(SpecErr::Position(seq![c, s]))
        }
    } else if c == 123 {
        Ok(AprsCompressedCs::RadioRange(AprsRadioRange { range_code: (s - 33) as u8 }))
    } else if 33 <= c <= 122 {
        Ok(AprsCompressedCs::CourseSpeed(AprsCourseSpeed {
            course: (((c - 33) as u16) * 4) as u16,
            speed_code: (s - 33) as u8,
        }))
    } else {
        Err(SpecErr::Position(seq![c, s]))
    }
}

/// The three wire bytes for `cs` under compression type `t`: the two cs
/// bytes followed by the offset compression-type byte.
pub open spec fn spec_encode_cs(cs: AprsCompressedCs, t: AprsCompressionType) -> Seq<u8> {
    let tb = (spec_type_byte(t) + 33) as u8;
    match cs {
        AprsCompressedCs::CourseSpeed(c) => seq![(c.course / 4 + 33) as u8, (c.speed_code + 33) as u8, tb],
        AprsCompressedCs::RadioRange(r) => seq![123u8, (r.range_code + 33) as u8, tb],
        AprsCompressedCs::Altitude(a) => seq![(a.hi_code + 33) as u8, (a.lo_code + 33) as u8, tb],
    }
}

/// Every accepted cs field re-encodes to its original two bytes (the third
/// encoded byte restores the compression type separately).
pub proof fn lemma_cs_round_trip(c: u8, s: u8, t: AprsCompressionType)
    requires
        spec_parse_cs(c, s, t) is Ok,
    ensures
        cs_wf(spec_parse_cs(c, s, t)->Ok_0),
        spec_encode_cs(spec_parse_cs(c, s, t)->Ok_0, t)[0] == c,
        spec_encode_cs(spec_parse_cs(c, s, t)->Ok_0, t)[1] == s,
{
    let cs = spec_parse_cs(c, s, t)->Ok_0;
    if cs is CourseSpeed {
        let course = ((c - 33) as u16) * 4;
        lemma_fundamental_div_mod_converse(course as int, 4, (c - 33) as int, 0);
    }
}

impl AprsCompressedCs {
    /// Decodes the cs bytes `c` and `s` under compression type `t`, per
    /// [`spec_parse_cs`].  An accepted field is well-formed.
    pub fn parse(c: u8, s: u8, t: AprsCompressionType) -> (r: Result<
        AprsCompressedCs,
        AprsError,
    >)
        ensures
            result_matches(r, spec_parse_cs(c, s, t)),
            r is Ok ==> cs_wf(r->Ok_0),
    {
        if s < 33 {
            return Err(AprsError::InvalidPosition(vec![c, s]));
        }
        let gga = match t.nmea_source {
            NmeaSource::Gga => true,
            _ => false,
        };
        if gga {
            if 33 <= c && c <= 123 {
                Ok(AprsCompressedCs::Altitude(AprsAltitude { hi_code: c - 33, lo_code: s - 33 }))
            } else {
                Err(AprsError::InvalidPosition(vec![c, s]))
            }
        } else if c == 123 {
            Ok(AprsCompressedCs::RadioRange(AprsRadioRange { range_code: s - 33 }))
        } else if 33 <= c && c <= 122 {
            Ok(
                AprsCompressedCs::CourseSpeed(
                    AprsCourseSpeed { course: ((c - 33) as u16) * 4, speed_code: s - 33 },
                ),
            )
        } else {
            Err(AprsError::InvalidPosition(vec![c, s]))
        }
    }

    /// Appends the two cs bytes and the compression-type byte for `self`
    /// under `t` to `buf`.
    pub fn encode(&self, buf: &mut Vec<u8>, t: AprsCompressionType)
        requires
            cs_wf(*self),
        ensures
            final(buf)@ == old(buf)@ + spec_encode_cs(*self, t),
    {
        match *self {
            AprsCompressedCs::CourseSpeed(cs) => {
                buf.push((cs.course / 4) as u8 + 33);
                buf.push(cs.speed_code + 33);
            },
            AprsCompressedCs::RadioRange(r) => {
                buf.push(123);
                buf.push(r.range_code + 33);
            },
            AprsCompressedCs::Altitude(a) => {
                buf.push(a.hi_code + 33);
                buf.push(a.lo_code + 33);
            },
        }
        buf.push(t.to_byte() + 33);
        assert(buf@ =~= old(buf)@ + spec_encode_cs(*self, t));
    }
}

} // verus!
