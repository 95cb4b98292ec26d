//! Parser and encoder for APRS-style position, status and message packets.
//!
//! A packet has the shape `source>destination,via1,via2:body`.  The body is
//! dispatched on its leading byte: `/` starts a position report, `>` a status
//! report; anything else is carried as unknown data.  Position reports come in
//! an uncompressed degrees/minutes form and a compact base-91 "compressed"
//! form; both are parsed into one structured representation and can be
//! re-encoded to the exact wire bytes they came from.

pub mod callsign;
pub mod chars;
pub mod compressed_cs;
pub mod compression_type;
pub mod data_extension;
pub mod digits;
pub mod error;
pub mod lonlat;
pub mod message;
pub mod position;
pub mod status;
pub mod timestamp;

pub use callsign::Callsign;
pub use compressed_cs::{AprsAltitude, AprsCompressedCs, AprsCourseSpeed, AprsRadioRange};
pub use compression_type::{AprsCompressionType, GpsFix, NmeaSource, Origin};
pub use data_extension::DataExtension;
pub use error::AprsError;
pub use lonlat::{Latitude, Longitude, UNITS_PER_DEGREE};
pub use message::{AprsData, AprsMessage};
pub use position::{AprsCst, AprsPosition};
pub use status::AprsStatus;
pub use timestamp::Timestamp;
