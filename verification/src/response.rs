//! The uniform JSON response envelope that every JSON endpoint sends back:
//! `{"code": <status>, "message": <payload>}`.

use vstd::prelude::*;

use crate::decimal::spec_dec_rep;
use crate::decimal::u16_to_string;

verus! {

/// The HTTP status actually sent for a requested code: the recognized
/// success codes pass through, anything else is demoted to a client error.
pub open spec fn spec_status_for(code: u16) -> u16 {
    if code == 200 || code == 201 || code == 204 {
        code
    } else {
        400u16
    }
}

/// The serialized envelope around an already-serialized JSON payload.
pub open spec fn spec_envelope(code: u16, message: Seq<char>) -> Seq<char> {
    "{\"code\":"@ + spec_dec_rep(code as nat) + ",\"message\":"@ + message + "}"@
}

/// A generic HTTP responder. This works better than an ad-hoc body as it
/// allows for a consistent JSON response layout across the entire API: the
/// effective status, and the envelope body framing the payload.
pub struct HttpResponseBuilder {
    pub code: u16,
    pub body: String,
}

impl HttpResponseBuilder {
    /// Frames an already-serialized JSON payload in the envelope and picks
    /// the HTTP status that the code maps to.
    pub fn new(code: u16, message: &String) -> (r: HttpResponseBuilder)
        ensures
            r.code == spec_status_for(code),
            r.body@ == spec_envelope(code, message@),
    {
        let status = match code {
            200 => 200,
            201 => 201,
            204 => 204,
            _ => 400,
        };
        let mut body = String::from_str("{\"code\":");
        let digits = u16_to_string(code);
        body.append(digits.as_str());
        body.append(",\"message\":");
        body.append(message.as_str());
        body.append("}");
        proof {
            assert(body@ =~= spec_envelope(code, message@));
        }
        HttpResponseBuilder { code: status, body }
    }
}

} // verus!
