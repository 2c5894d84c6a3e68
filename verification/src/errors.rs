//! The error kinds that the REST layer maps onto HTTP statuses, together with
//! the helpers that turn lower-level failures into one of those kinds.

use vstd::prelude::*;

use crate::decimal::spec_dec_rep;
use crate::decimal::u16_to_string;

verus! {

/// A custom type that defines errors that are mapped to HTTP errors later.
#[derive(Debug, Clone, Copy, PartialEq, Eq, Structural)]
pub enum CustomHttpError {
    BadRequest,
    NotFound,
    Unknown,
    Unauthorized,
}

pub open spec fn spec_error_name(e: CustomHttpError) -> Seq<char> {
    match e {
        CustomHttpError::BadRequest => "Bad Request"@,
        CustomHttpError::Unknown => "Internal server error"@,
        CustomHttpError::NotFound => "Not Found"@,
        CustomHttpError::Unauthorized => "Unauthorized"@,
    }
}

pub open spec fn spec_error_descriptor(e: CustomHttpError) -> Seq<char> {
    match e {
        CustomHttpError::BadRequest => "Server was unable to handle data"@,
        CustomHttpError::Unknown => "Internal server error"@,
        CustomHttpError::NotFound => "Resource was not found"@,
        CustomHttpError::Unauthorized => "Not authorized"@,
    }
}

pub open spec fn spec_error_message(e: CustomHttpError) -> Seq<char> {
    match e {
        CustomHttpError::BadRequest => "Incorrect parameter type."@,
        CustomHttpError::Unknown => "Unknown Internal Error"@,
        CustomHttpError::NotFound => "Resource not found."@,
        CustomHttpError::Unauthorized => "User is not authorized."@,
    }
}

pub open spec fn spec_status_code(e: CustomHttpError) -> u16 {
    match e {
        CustomHttpError::BadRequest => 400u16,
        CustomHttpError::Unknown => 500u16,
        CustomHttpError::NotFound => 404u16,
        CustomHttpError::Unauthorized => 401u16,
    }
}

impl CustomHttpError {
    /// The short name of the error kind, as it appears in the `error` field of
    /// the JSON error envelope.
    pub fn name(&self) -> (r: String)
        ensures
            r@ == spec_error_name(*self),
    {
        match self {
            Self::BadRequest => "Bad Request".to_owned(),
            Self::Unknown => "Internal server error".to_owned(),
            Self::NotFound => "Not Found".to_owned(),
            Self::Unauthorized => "Unauthorized".to_owned(),
        }
    }

    /// Provides an interface for getting a description of the request.
    pub fn descriptor(&self) -> (r: String)
        ensures
            r@ == spec_error_descriptor(*self),
    {
        match self {
            Self::BadRequest => "Server was unable to handle data".to_owned(),
            Self::Unknown => "Internal server error".to_owned(),
            Self::NotFound => "Resource was not found".to_owned(),
            Self::Unauthorized => "Not authorized".to_owned(),
        }
    }

    /// The human-readable message of the error kind, as it appears in the
    /// `message` field of the JSON error envelope.
    pub fn message(&self) -> (r: String)
        ensures
            r@ == spec_error_message(*self),
    {
        match self {
            Self::BadRequest => "Incorrect parameter type.".to_owned(),
            Self::Unknown => "Unknown Internal Error".to_owned(),
            Self::NotFound => "Resource not found.".to_owned(),
            Self::Unauthorized => "User is not authorized.".to_owned(),
        }
    }

    /// The HTTP status that the REST layer sends for this error kind.
    pub fn status_code(&self) -> (r: u16)
        ensures
            r == spec_status_code(*self),
    {
        match self {
            Self::BadRequest => 400,
            Self::Unknown => 500,
            Self::NotFound => 404,
            Self::Unauthorized => 401,
        }
    }

    /// The full error answer: the HTTP status and the serialized uniform
    /// error envelope that every failing JSON endpoint sends back, with the
    /// kind's name under `error` and the human-readable text under
    /// `message`.
    pub fn error_response(&self) -> (r: (u16, String))
        ensures
            r.0 == spec_status_code(*self),
            r.1@ == spec_error_envelope(*self),
    {
        let status_code = self.status_code();
        let mut body = String::from_str("{\"code\":");
        let digits = u16_to_string(status_code);
        body.append(digits.as_str());
        body.append(",\"error\":\"");
        let error = self.name();
        body.append(error.as_str());
        body.append("\",\"message\":\"");
        let message = self.message();
        body.append(message.as_str());
        body.append("\"}");
        proof {
            assert(body@ =~= spec_error_envelope(*self));
        }
        (status_code, body)
    }
}

/// The serialized error envelope: the status code, the kind's name under
/// `error`, and the human-readable text under `message`. The embedded
/// texts are fixed words without characters that JSON strings would need
/// escaped.
pub open spec fn spec_error_envelope(e: CustomHttpError) -> Seq<char> {
    "{\"code\":"@ + spec_dec_rep(spec_status_code(e) as nat) + ",\"error\":\""@
        + spec_error_name(e) + "\",\"message\":\""@ + spec_error_message(e) + "\"}"@
}

#[verifier::external_type_specification]
#[verifier::external_body]
pub struct ExParseIntError(core::num::ParseIntError);

/// Relies on core::num::ParseIntError::kind: tells an invalid-digit failure
/// apart from the other ways an integer parse can fail.
#[verifier::external_body]
fn parse_error_is_invalid_digit(e: &core::num::ParseIntError) -> bool {
    matches!(e.kind(), core::num::IntErrorKind::InvalidDigit)
}

/// The error kind owed for each kind of integer-parse failure: a bad digit is
/// the caller's fault, anything else is an internal error.
pub fn parse_failure_to_http(invalid_digit: bool) -> (r: CustomHttpError)
    ensures
        r == (if invalid_digit {
            CustomHttpError::BadRequest
        } else {
            CustomHttpError::Unknown
        }),
{
    if invalid_digit {
        CustomHttpError::BadRequest
    } else {
        CustomHttpError::Unknown
    }
}

/// Used whenever parsing ints out of the URLs.
pub fn map_parsing_error(e: std::num::ParseIntError) -> (r: CustomHttpError)
    ensures
        r == CustomHttpError::BadRequest || r == CustomHttpError::Unknown,
{
    let invalid_digit = parse_error_is_invalid_digit(&e);
    parse_failure_to_http(invalid_digit)
}

/// Used whenever parsing ints out of the URLs.
pub fn map_int_parsing_error(e: std::num::ParseIntError) -> (r: CustomHttpError)
    ensures
        r == CustomHttpError::BadRequest || r == CustomHttpError::Unknown,
{
    let invalid_digit = parse_error_is_invalid_digit(&e);
    parse_failure_to_http(invalid_digit)
}

} // verus!
