//! The packet envelope: `source>destination,via1,...:body`.
//!
//! The first `:` separates header and body.  Inside the header, the first
//! `>` separates the source callsign from the destination and the via
//! path, which are comma-separated; the path keeps its order and its
//! duplicates.  The byte after the `:` selects the body type: `/` starts a
//! position report (handed on whole, since `/` doubles as the position
//! sigil), `>` a status report; anything else is carried as unknown data,
//! which is not an error.  An empty body is.

use vstd::prelude::*;

use crate::callsign::{spec_parse_callsign, Callsign, CallsignView};
use crate::chars::{find_char, first_index, lemma_first_index};
use crate::error::{err_matches, AprsError, SpecErr};
use crate::position::{spec_parse_position, AprsPosition, PositionView};
use crate::status::{spec_parse_status, AprsStatus, StatusView};
use vstd::string::StrSliceExecFns;

verus! {

/// The body of a packet.
#[derive(Debug, Clone, PartialEq)]
pub enum AprsData {
    Position(AprsPosition),
    Status(AprsStatus),
    Unknown,
}

/// A parsed packet.
#[derive(Debug, Clone, PartialEq)]
pub struct AprsMessage {
    pub from: Callsign,
    pub to: Callsign,
    pub via: Vec<Callsign>,
    pub data: AprsData,
}

/// The mathematical view of a packet body.
pub enum DataView {
    Position(PositionView),
    Status(StatusView),
    Unknown,
}

/// The mathematical view of a packet.
pub struct MessageView {
    pub from: CallsignView,
    pub to: CallsignView,
    pub via: Seq<CallsignView>,
    pub data: DataView,
}

impl View for AprsData {
    type V = DataView;

    open spec fn view(&self) -> DataView {
        match self {
            AprsData::Position(p) => DataView::Position(p@),
            AprsData::Status(st) => DataView::Status(st@),
            AprsData::Unknown => DataView::Unknown,
        }
    }
}

/// The views of a sequence of callsigns.
pub open spec fn via_views(v: Seq<Callsign>) -> Seq<CallsignView> {
    v.map_values(|c: Callsign| c@)
}

impl View for AprsMessage {
    type V = MessageView;

    open spec fn view(&self) -> MessageView {
        MessageView {
            from: self.from@,
            to: self.to@,
            via: via_views(self.via@),
            data: self.data@,
        }
    }
}

/// An executable message parse result agrees with a spec-level one.
pub open spec fn message_result_matches(
    r: Result<AprsMessage, AprsError>,
    s: Result<MessageView, SpecErr>,
) -> bool {
    match (r, s) {
        (Ok(v), Ok(w)) => v@ == w,
        (Err(e), Err(se)) => err_matches(e, se),
        _ => false,
    }
}

/// `s` split at every comma: always at least one (possibly empty) token.
pub open spec fn split_commas(s: Seq<char>) -> Seq<Seq<char>>
    decreases s.len(),
{
    let fi = first_index(s, ',');
    if fi < 0 || fi >= s.len() {
        seq![s]
    } else {
        seq![s.take(fi)] + split_commas(s.skip(fi + 1))
    }
}

/// Each token parsed as a callsign, the first failure propagating.
pub open spec fn spec_parse_callsign_list(toks: Seq<Seq<char>>) -> Result<Seq<CallsignView>, SpecErr>
    decreases toks.len(),
{
    if toks.len() == 0 {
        Ok(Seq::empty())
    } else {
        match spec_parse_callsign(toks[0]) {
            Err(e) => Err(e),
            Ok(c) => match spec_parse_callsign_list(toks.skip(1)) {
                Err(e) => Err(e),
                Ok(rest) => Ok(seq![c] + rest),
            },
        }
    }
}

/// What parsing a packet yields.  Without a `:`, without a `>` before it,
/// or with an empty body, the packet is an invalid message carrying the
/// whole input; callsign and body errors propagate from their parsers.
pub open spec fn spec_parse_message(s: Seq<char>) -> Result<MessageView, SpecErr> {
    let ci = first_index(s, ':');
    if ci < 0 {
        Err(SpecErr::Message(s))
    } else {
        let header = s.take(ci);
        let body = s.skip(ci + 1);
        let gi = first_index(header, '>');
        if gi < 0 {
            Err(SpecErr::Message(s))
        } else {
            match spec_parse_callsign(header.take(gi)) {
                Err(e) => Err(e),
                Ok(from) => {
                    let toks = split_commas(header.skip(gi + 1));
                    match spec_parse_callsign(toks[0]) {
                        Err(e) => Err(e),
                        Ok(to) => match spec_parse_callsign_list(toks.skip(1)) {
                            Err(e) => Err(e),
                            Ok(via) => {
                                if body.len() == 0 {
                                    Err(SpecErr::Message(s))
                                } else if body[0] == '/' {
                                    match spec_parse_position(vstd::utf8::encode_utf8(body)) {
                                        Err(e) => Err(e),
                                        Ok(p) => Ok(
                                            MessageView {
                                                from,
                                                to,
                                                via,
                                                data: DataView::Position(p),
                                            },
                                        ),
                                    }
                                } else if body[0] == '>' {
                                    Ok(
                                        MessageView {
                                            from,
                                            to,
                                            via,
                                            data: DataView::Status(spec_parse_status(body.skip(1))),
                                        },
                                    )
                                } else {
                                    Ok(MessageView { from, to, via, data: DataView::Unknown })
                                }
                            },
                        },
                    }
                },
            }
        }
    }
}

/// A header whose destination is not followed by a comma yields an empty
/// via path, not an error.
pub proof fn lemma_no_comma_empty_via(s: Seq<char>)
    requires
        spec_parse_message(s) is Ok,
        ({
            let header = s.take(first_index(s, ':'));
            first_index(header.skip(first_index(header, '>') + 1), ',') < 0
        }),
    ensures
        spec_parse_message(s)->Ok_0.via.len() == 0,
{
    let header = s.take(first_index(s, ':'));
    let rest = header.skip(first_index(header, '>') + 1);
    assert(split_commas(rest) == seq![rest]);
    assert(split_commas(rest).skip(1) =~= Seq::<Seq<char>>::empty());
}

/// Splits off everything before the first comma; the rest, when there is
/// one, starts after that comma.
fn split_first_comma<'a>(s: &'a str) -> (r: (&'a str, Option<&'a str>))
    ensures
        ({
            let fi = first_index(s@, ',');
            match r.1 {
                Some(rest) => fi >= 0 && r.0@ == s@.take(fi) && rest@ == s@.skip(fi + 1),
                None => fi < 0 && r.0@ == s@,
            }
        }),
{
    let len = s.unicode_len();
    match find_char(s, ',') {
        Some(i) => {
            proof {
                lemma_first_index(s@, ',');
            }
            (s.substring_char(0, i), Some(s.substring_char(i + 1, len)))
        },
        None => (s, None),
    }
}

/// An executable via-path parse result agrees with a spec-level one.
pub open spec fn via_result_matches(
    r: Result<Vec<Callsign>, AprsError>,
    s: Result<Seq<CallsignView>, SpecErr>,
) -> bool {
    match (r, s) {
        (Ok(v), Ok(w)) => via_views(v@) == w,
        (Err(e), Err(se)) => err_matches(e, se),
        _ => false,
    }
}

/// Parses a comma-separated list of callsigns, per
/// [`spec_parse_callsign_list`] over [`split_commas`].
fn parse_via(s: &str) -> (r: Result<Vec<Callsign>, AprsError>)
    ensures
        via_result_matches(r, spec_parse_callsign_list(split_commas(s@))),
    decreases s@.len(),
{
    let (tok, rest) = split_first_comma(s);
    proof {
        if rest is Some {
            let fi = first_index(s@, ',');
            lemma_first_index(s@, ',');
            assert(split_commas(s@) == seq![s@.take(fi)] + split_commas(s@.skip(fi + 1)));
            assert(split_commas(s@)[0] == tok@);
            assert(split_commas(s@).skip(1) =~= split_commas(s@.skip(fi + 1)));
        } else {
            assert(split_commas(s@) == seq![s@]);
            assert(split_commas(s@).skip(1) =~= Seq::<Seq<char>>::empty());
        }
    }
    let c = match Callsign::from_str(tok) {
        Ok(c) => c,
        Err(e) => {
            return Err(e);
        },
    };
    match rest {
        None => {
            let ghost cv = c@;
            let mut v: Vec<Callsign> = Vec::new();
            v.push(c);
            assert(v@ =~= seq![v@[0]]);
            assert(via_views(v@) =~= seq![cv] + Seq::<CallsignView>::empty());
            assert(spec_parse_callsign_list(Seq::<Seq<char>>::empty()) == Ok::<
                Seq<CallsignView>,
                SpecErr,
            >(Seq::empty()));
            Ok(v)
        },
        Some(r) => {
            match parse_via(r) {
                Err(e) => Err(e),
                Ok(mut vs) => {
                    let ghost tail = vs@;
                    vs.insert(0, c);
                    assert(vs@ =~= seq![c] + tail);
                    assert(via_views(vs@) =~= seq![c@] + via_views(tail));
                    Ok(vs)
                },
            }
        },
    }
}

impl AprsMessage {
    /// Parses the packet `s`, per [`spec_parse_message`].
    pub fn from_str(s: &str) -> (r: Result<AprsMessage, AprsError>)
        ensures
            message_result_matches(r, spec_parse_message(s@)),
    {
        let len = s.unicode_len();
        let ci = match find_char(s, ':') {
            Some(i) => i,
            None => {
                return Err(AprsError::InvalidMessage(s.to_owned()));
            },
        };
        proof {
            lemma_first_index(s@, ':');
        }
        let header = s.substring_char(0, ci);
        let body = s.substring_char(ci + 1, len);
        let hlen = header.unicode_len();
        let gi = match find_char(header, '>') {
            Some(i) => i,
            None => {
                return Err(AprsError::InvalidMessage(s.to_owned()));
            },
        };
        proof {
            lemma_first_index(header@, '>');
        }
        let from = match Callsign::from_str(header.substring_char(0, gi)) {
            Ok(c) => c,
            Err(e) => {
                return Err(e);
            },
        };
        let to_and_via = header.substring_char(gi + 1, hlen);
        let (to_tok, after) = split_first_comma(to_and_via);
        proof {
            let toks = split_commas(to_and_via@);
            if after is Some {
                let fi = first_index(to_and_via@, ',');
                lemma_first_index(to_and_via@, ',');
                assert(toks == seq![to_and_via@.take(fi)] + split_commas(to_and_via@.skip(fi + 1)));
                assert(toks[0] == to_tok@);
                assert(toks.skip(1) =~= split_commas(to_and_via@.skip(fi + 1)));
            } else {
                assert(toks == seq![to_and_via@]);
                assert(toks.skip(1) =~= Seq::<Seq<char>>::empty());
            }
        }
        let to = match Callsign::from_str(to_tok) {
            Ok(c) => c,
            Err(e) => {
                return Err(e);
            },
        };
        let via: Vec<Callsign> = match after {
            None => {
                let v: Vec<Callsign> = Vec::new();
                assert(via_views(v@) =~= Seq::<CallsignView>::empty());
                v
            },
            Some(rest) => match parse_via(rest) {
                Ok(v) => v,
                Err(e) => {
                    return Err(e);
                },
            },
        };
        let blen = body.unicode_len();
        if blen == 0 {
            return Err(AprsError::InvalidMessage(s.to_owned()));
        }
        let b0 = body.get_char(0);
        let data = if b0 == '/' {
            match AprsPosition::try_from(body.as_bytes()) {
                Ok(p) => AprsData::Position(p),
                Err(e) => {
                    return Err(e);
                },
            }
        } else if b0 == '>' {
            match AprsStatus::from_str(body.substring_char(1, blen)) {
                Ok(st) => AprsData::Status(st),
                Err(e) => {
                    return Err(e);
                },
            }
        } else {
            AprsData::Unknown
        };
        Ok(AprsMessage { from, to, via, data })
    }
}

} // verus!
