//! The compression-type metadata byte that accompanies a compressed
//! position.
//!
//! After subtracting the ASCII offset 33, the byte is a three-field bitset:
//! bit 5 is the GPS fix currency, bits 3–4 the NMEA sentence source, and
//! bits 0–2 the origin of the compressed data.  Bits 6 and up carry no
//! meaning and are dropped when decoding, so only values below 64 survive a
//! decode/encode round trip unchanged.

use vstd::prelude::*;

use vstd::arithmetic::div_mod::lemma_fundamental_div_mod_converse;

verus! {

/// Whether the GPS fix was current when the position was produced.
#[derive(Debug, Clone, Copy, PartialEq, Eq)]
pub enum GpsFix {
    /// The fix is old (bit 5 clear).
    Old,
    /// The fix is current (bit 5 set).
    Current,
}

/// Which NMEA sentence the position was derived from.
#[derive(Debug, Clone, Copy, PartialEq, Eq)]
pub enum NmeaSource {
    /// Another or no NMEA source.
    Other,
    /// A GLL sentence.
    Gll,
    /// A GGA sentence.  With this source the compressed cs field carries an
    /// altitude.
    Gga,
    /// An RMC sentence.
    Rmc,
}

/// What produced the compressed data.
#[derive(Debug, Clone, Copy, PartialEq, Eq)]
pub enum Origin {
    Compressed,
    TncBtext,
    Software,
    Tbd,
    Kpc3,
    Pico,
    OtherTracker,
    Digipeater,
}

/// The decoded compression-type byte.
#[derive(Debug, Clone, Copy, PartialEq, Eq)]
pub struct AprsCompressionType {
    pub gps_fix: GpsFix,
    pub nmea_source: NmeaSource,
    pub origin: Origin,
}

/// The bit value (0–1) of a GPS fix state.
pub open spec fn gps_fix_val(g: GpsFix) -> int {
    match g {
        GpsFix::Old => 0,
        GpsFix::Current => 1,
    }
}

/// The field value (0–3) of an NMEA source.
pub open spec fn nmea_source_val(n: NmeaSource) -> int {
    match n {
        NmeaSource::Other => 0,
        NmeaSource::Gll => 1,
        NmeaSource::Gga => 2,
        NmeaSource::Rmc => 3,
    }
}

/// The field value (0–7) of an origin.
pub open spec fn origin_val(o: Origin) -> int {
    match o {
        Origin::Compressed => 0,
        Origin::TncBtext => 1,
        Origin::Software => 2,
        Origin::Tbd => 3,
        Origin::Kpc3 => 4,
        Origin::Pico => 5,
        Origin::OtherTracker => 6,
        Origin::Digipeater => 7,
    }
}

/// The NMEA source with field value `v % 4`.
pub open spec fn nmea_source_of(v: int) -> NmeaSource {
    if v % 4 == 0 {
        NmeaSource::Other
    } else if v % 4 == 1 {
        NmeaSource::Gll
    } else if v % 4 == 2 {
        NmeaSource::Gga
    } else {
        NmeaSource::Rmc
    }
}

/// The origin with field value `v % 8`.
pub open spec fn origin_of(v: int) -> Origin {
    if v % 8 == 0 {
        Origin::Compressed
    } else if v % 8 == 1 {
        Origin::TncBtext
    } else if v % 8 == 2 {
        Origin::Software
    } else if v % 8 == 3 {
        Origin::Tbd
    } else if v % 8 == 4 {
        Origin::Kpc3
    } else if v % 8 == 5 {
        Origin::Pico
    } else if v % 8 == 6 {
        Origin::OtherTracker
    } else {
        Origin::Digipeater
    }
}

/// Decoding the offset-stripped byte `t`: bit 5 is the fix, bits 3–4 the
/// source, bits 0–2 the origin; higher bits are ignored.
pub open spec fn spec_type_of_byte(t: u8) -> AprsCompressionType {
    AprsCompressionType {
        gps_fix: if (t / 32) % 2 == 1 {
            GpsFix::Current
        } else {
            GpsFix::Old
        },
        nmea_source: nmea_source_of((t as int) / 8),
        origin: origin_of(t as int),
    }
}

/// The offset-stripped byte encoding `ct` (always below 64).
pub open spec fn spec_type_byte(ct: AprsCompressionType) -> int {
    gps_fix_val(ct.gps_fix) * 32 + nmea_source_val(ct.nmea_source) * 8 + origin_val(ct.origin)
}

/// Encoding a decoded compression type restores the byte, as long as the
/// byte had no meaning-free high bits set.
pub proof fn lemma_type_round_trip(t: u8)
    requires
        t < 64,
    ensures
        spec_type_byte(spec_type_of_byte(t)) == t,
{
    let g = (t as int) / 32;
    let n = ((t as int) / 8) % 4;
    let o = (t as int) % 8;
    lemma_fundamental_div_mod_converse(t as int, 8, (t as int) / 8, o);
    lemma_fundamental_div_mod_converse((t as int) / 8, 4, g, n);
    lemma_fundamental_div_mod_converse(t as int, 32, g, n * 8 + o);
}

/// Every compression type encodes to a byte that decodes back to it.
pub proof fn lemma_type_byte_of(ct: AprsCompressionType)
    ensures
        0 <= spec_type_byte(ct) < 64,
        spec_type_of_byte(spec_type_byte(ct) as u8) == ct,
{
}

impl AprsCompressionType {
    /// Decodes the offset-stripped compression-type byte `t`, per
    /// [`spec_type_of_byte`].
    pub fn from_byte(t: u8) -> (r: AprsCompressionType)
        ensures
            r == spec_type_of_byte(t),
    {
        let gps_fix = if (t / 32) % 2 == 1 {
            GpsFix::Current
        } else {
            GpsFix::Old
        };
        let n = (t / 8) % 4;
        let nmea_source = if n == 0 {
            NmeaSource::Other
        } else if n == 1 {
            NmeaSource::Gll
        } else if n == 2 {
            NmeaSource::Gga
        } else {
            NmeaSource::Rmc
        };
        let o = t % 8;
        let origin = if o == 0 {
            Origin::Compressed
        } else if o == 1 {
            Origin::TncBtext
        } else if o == 2 {
            Origin::Software
        } else if o == 3 {
            Origin::Tbd
        } else if o == 4 {
            Origin::Kpc3
        } else if o == 5 {
            Origin::Pico
        } else if o == 6 {
            Origin::OtherTracker
        } else {
            Origin::Digipeater
        };
        AprsCompressionType { gps_fix, nmea_source, origin }
    }

    /// The offset-stripped byte for `self`, per [`spec_type_byte`].
    pub fn to_byte(&self) -> (r: u8)
        ensures
            r == spec_type_byte(*self),
            r < 64,
    {
        let g: u8 = match self.gps_fix {
            GpsFix::Old => 0,
            GpsFix::Current => 1,
        };
        let n: u8 = match self.nmea_source {
            NmeaSource::Other => 0,
            NmeaSource::Gll => 1,
            NmeaSource::Gga => 2,
            NmeaSource::Rmc => 3,
        };
        let o: u8 = match self.origin {
            Origin::Compressed => 0,
            Origin::TncBtext => 1,
            Origin::Software => 2,
            Origin::Tbd => 3,
            Origin::Kpc3 => 4,
            Origin::Pico => 5,
            Origin::OtherTracker => 6,
            Origin::Digipeater => 7,
        };
        g * 32 + n * 8 + o
    }
}

} // verus!
