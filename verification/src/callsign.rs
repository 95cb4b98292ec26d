//! Callsign tokens: a base call with an optional numeric station
//! identifier (SSID) suffix.
//!
//! A token splits on its last `-` when everything after it is a decimal
//! number no larger than a station identifier can be; otherwise the whole
//! token, marker characters such as a trailing `*` included, is the base
//! call.  Only an empty token is rejected.

use vstd::prelude::*;

use crate::chars::{all_char_digits, char_digit, char_is_digit, decimal_val, is_char_digit};
use crate::error::{err_matches, AprsError, SpecErr};
use vstd::string::StrSliceExecFns;
use vstd::string::StringExecFns;

verus! {

/// A callsign: base call text and optional SSID.
#[derive(Debug, Clone, PartialEq, Eq)]
pub struct Callsign {
    pub call: String,
    pub ssid: Option<u16>,
}

/// The mathematical view of a callsign.
pub struct CallsignView {
    pub call: Seq<char>,
    pub ssid: Option<u16>,
}

impl View for Callsign {
    type V = CallsignView;

    open spec fn view(&self) -> CallsignView {
        CallsignView { call: self.call@, ssid: self.ssid }
    }
}

/// An executable callsign parse result agrees with a spec-level one.
pub open spec fn callsign_result_matches(
    r: Result<Callsign, AprsError>,
    s: Result<CallsignView, SpecErr>,
) -> bool {
    match (r, s) {
        (Ok(v), Ok(w)) => v@ == w,
        (Err(e), Err(se)) => err_matches(e, se),
        _ => false,
    }
}

/// The last index of `-` in `s`, or -1 when `s` does not contain one.
pub open spec fn last_dash(s: Seq<char>) -> int
    decreases s.len(),
{
    if s.len() == 0 {
        -1
    } else if s.last() == '-' {
        s.len() - 1
    } else {
        last_dash(s.drop_last())
    }
}

/// What parsing a callsign token yields: an empty token is an invalid
/// callsign; a token whose last `-` is followed by a nonempty all-digit
/// run whose value fits a station identifier splits there; any other
/// token is a base call without SSID.
pub open spec fn spec_parse_callsign(s: Seq<char>) -> Result<CallsignView, SpecErr> {
    if s.len() == 0 {
        Err(SpecErr::Callsign(s))
    } else {
        let i = last_dash(s);
        if i >= 0 && s.skip(i + 1).len() > 0 && all_char_digits(s.skip(i + 1)) && decimal_val(
            s.skip(i + 1),
        ) <= 65535 {
            Ok(
                CallsignView {
                    call: s.take(i),
                    ssid: Some(decimal_val(s.skip(i + 1)) as u16),
                },
            )
        } else {
            Ok(CallsignView { call: s, ssid: None })
        }
    }
}

impl Callsign {
    /// A callsign built directly from its parts.
    pub fn new(call: &str, ssid: Option<u16>) -> (r: Callsign)
        ensures
            r@.call == call@,
            r@.ssid == ssid,
    {
        Callsign { call: call.to_owned(), ssid }
    }

    /// Parses the callsign token `s`, per [`spec_parse_callsign`].
    pub fn from_str(s: &str) -> (r: Result<Callsign, AprsError>)
        ensures
            callsign_result_matches(r, spec_parse_callsign(s@)),
    {
        let len = s.unicode_len();
        if len == 0 {
            return Err(AprsError::InvalidCallsign(s.to_owned()));
        }
        let mut ld: Option<usize> = None;
        let mut i: usize = 0;
        while i < len
            invariant
                i <= len,
                len == s@.len(),
                match ld {
                    None => last_dash(s@.take(i as int)) == -1,
                    Some(k) => k < i && last_dash(s@.take(i as int)) == k,
                },
            decreases len - i,
        {
            let c = s.get_char(i);
            proof {
                assert(s@.take(i + 1).drop_last() =~= s@.take(i as int));
            }
            if c == '-' {
                ld = Some(i);
            }
            i += 1;
        }
        proof {
            assert(s@.take(len as int) =~= s@);
        }
        let k = match ld {
            None => {
                return Ok(Callsign { call: s.to_owned(), ssid: None });
            },
            Some(k) => k,
        };
        let mut j: usize = k + 1;
        let mut digits_ok = true;
        let mut val: u32 = 0;
        while j < len
            invariant
                k < j <= len,
                len == s@.len(),
                digits_ok == all_char_digits(s@.subrange(k + 1, j as int)),
                digits_ok ==> {
                    let dv = decimal_val(s@.subrange(k + 1, j as int));
                    (dv <= 65535 ==> val == dv) && (dv > 65535 ==> 65535 < val <= 655359)
                },
            decreases len - j,
        {
            let c = s.get_char(j);
            proof {
                assert(s@.subrange(k + 1, j + 1).drop_last() =~= s@.subrange(k + 1, j as int));
            }
            if digits_ok && char_is_digit(c) {
                if val > 65535 {
                    val = 65536;
                } else {
                    val = val * 10 + char_digit(c) as u32;
                }
                assert(all_char_digits(s@.subrange(k + 1, j + 1)));
            } else {
                digits_ok = false;
                assert(!all_char_digits(s@.subrange(k + 1, j + 1))) by {
                    if is_char_digit(s@[j as int]) {
                        assert(!all_char_digits(s@.subrange(k + 1, j as int)));
                        let bad = choose|t: int|
                            0 <= t < j - k - 1 && !is_char_digit(
                                #[trigger] s@.subrange(k + 1, j as int)[t],
                            );
                        assert(s@.subrange(k + 1, j + 1)[bad] == s@.subrange(k + 1, j as int)[bad]);
                    } else {
                        assert(s@.subrange(k + 1, j + 1)[j - k - 1] == s@[j as int]);
                    }
                };
            }
            j += 1;
        }
        proof {
            assert(s@.subrange(k + 1, len as int) =~= s@.skip(k + 1));
        }
        if digits_ok && k + 1 < len && val <= 65535 {
            Ok(
                Callsign {
                    call: s.substring_char(0, k).to_owned(),
                    ssid: Some(val as u16),
                },
            )
        } else {
            Ok(Callsign { call: s.to_owned(), ssid: None })
        }
    }
}

} // verus!
