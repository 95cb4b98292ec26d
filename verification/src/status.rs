//! Status reports: an optional timestamp and a free-text comment.
//!
//! The parser is deliberately lenient: the first 7 characters are tried as
//! a timestamp, and when they are not one the whole input becomes the
//! comment.  A status report therefore never fails to parse.  Encoding
//! re-emits `>`, the timestamp if any, and the comment.

use vstd::prelude::*;

use crate::error::AprsError;
use crate::timestamp::{spec_encode_timestamp, spec_parse_timestamp, timestamp_wf, Timestamp};
use vstd::string::StrSliceExecFns;

verus! {

/// A parsed status report.
#[derive(Debug, Clone, PartialEq)]
pub struct AprsStatus {
    pub timestamp: Option<Timestamp>,
    pub comment: String,
}

/// The mathematical view of a status report.
pub struct StatusView {
    pub timestamp: Option<Timestamp>,
    pub comment: Seq<char>,
}

impl View for AprsStatus {
    type V = StatusView;

    open spec fn view(&self) -> StatusView {
        StatusView { timestamp: self.timestamp, comment: self.comment@ }
    }
}

/// The first 7 characters of `s` as bytes (meaningful when they are
/// ASCII).
pub open spec fn leading_bytes(s: Seq<char>) -> Seq<u8> {
    Seq::new(7, |i: int| s[i] as u8)
}

/// The first 7 characters of `s` are ASCII and parse as a timestamp.
pub open spec fn has_leading_timestamp(s: Seq<char>) -> bool {
    &&& s.len() >= 7
    &&& forall|i: int| 0 <= i < 7 ==> (#[trigger] s[i] as int) < 128
    &&& spec_parse_timestamp(leading_bytes(s)) is Ok
}

/// What parsing a status body yields: the leading timestamp when there is
/// one, with the rest as comment; otherwise no timestamp and the whole
/// input as comment.
pub open spec fn spec_parse_status(s: Seq<char>) -> StatusView {
    if has_leading_timestamp(s) {
        StatusView {
            timestamp: Some(spec_parse_timestamp(leading_bytes(s))->Ok_0),
            comment: s.skip(7),
        }
    } else {
        StatusView { timestamp: None, comment: s }
    }
}

/// A status report's timestamp, when present, is in range, and its
/// comment is text the encoder can re-emit.
pub open spec fn status_wf(st: StatusView) -> bool {
    match st.timestamp {
        Some(t) => timestamp_wf(t),
        None => true,
    }
}

/// The wire bytes for `st`: `>`, the timestamp if any, then the comment
/// in its UTF-8 bytes.
pub open spec fn spec_encode_status(st: StatusView) -> Seq<u8> {
    seq![62u8] + (match st.timestamp {
        Some(t) => spec_encode_timestamp(t),
        None => Seq::empty(),
    }) + vstd::utf8::encode_utf8(st.comment)
}

impl AprsStatus {
    /// Parses the status body `s`, per [`spec_parse_status`].  Parsing a
    /// status never fails; the result is well-formed.
    pub fn from_str(s: &str) -> (r: Result<AprsStatus, AprsError>)
        ensures
            r is Ok,
            r->Ok_0@ == spec_parse_status(s@),
            status_wf(r->Ok_0@),
    {
        let len = s.unicode_len();
        if len >= 7 {
            let c0 = s.get_char(0);
            let c1 = s.get_char(1);
            let c2 = s.get_char(2);
            let c3 = s.get_char(3);
            let c4 = s.get_char(4);
            let c5 = s.get_char(5);
            let c6 = s.get_char(6);
            if (c0 as u32) < 128 && (c1 as u32) < 128 && (c2 as u32) < 128 && (c3 as u32) < 128
                && (c4 as u32) < 128 && (c5 as u32) < 128 && (c6 as u32) < 128 {
                let tb: Vec<u8> = vec![
                    c0 as u8,
                    c1 as u8,
                    c2 as u8,
                    c3 as u8,
                    c4 as u8,
                    c5 as u8,
                    c6 as u8,
                ];
                assert(tb@ =~= leading_bytes(s@));
                if let Ok(ts) = Timestamp::try_from(tb.as_slice()) {
                    return Ok(
                        AprsStatus {
                            timestamp: Some(ts),
                            comment: s.substring_char(7, len).to_owned(),
                        },
                    );
                }
            }
        }
        Ok(AprsStatus { timestamp: None, comment: s.to_owned() })
    }

    /// Appends the wire bytes of `self` to `buf`, per
    /// [`spec_encode_status`].
    pub fn encode(&self, buf: &mut Vec<u8>)
        requires
            status_wf(self@),
        ensures
            final(buf)@ == old(buf)@ + spec_encode_status(self@),
    {
        buf.push(62);
        if let Some(ts) = &self.timestamp {
            ts.encode(buf);
        }
        buf.extend_from_slice(self.comment.as_str().as_bytes());
        assert(buf@ =~= old(buf)@ + spec_encode_status(self@));
    }
}

} // verus!
