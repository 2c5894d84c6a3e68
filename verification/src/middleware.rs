//! The authorization middleware's decision: which requests demand a valid
//! session token, and whether a given request carries one.

use vstd::prelude::*;

use crate::auth::token_matches;
use crate::auth::Claims;
use crate::store::Store;

verus! {

/// An HTTP request method, as the routing layer hands it over.
#[derive(Debug, Clone, Copy, PartialEq, Eq, Structural)]
pub enum HttpMethod {
    Get,
    Head,
    Post,
    Put,
    Delete,
    Options,
    Patch,
}

/// The methods that mutate state and therefore demand a valid token.
pub open spec fn spec_restricted(m: HttpMethod) -> bool {
    m == HttpMethod::Post || m == HttpMethod::Put || m == HttpMethod::Delete
}

/// The authorization middleware's policy. The service wrapper around it
/// lives with the web framework; the decision itself is here.
pub struct Authorization;

impl Authorization {
    /// Whether the method mutates state and so is restricted.
    pub fn restricted(method: &HttpMethod) -> (r: bool)
        ensures
            r == spec_restricted(*method),
    {
        match method {
            HttpMethod::Post => true,
            HttpMethod::Put => true,
            HttpMethod::Delete => true,
            _ => false,
        }
    }

    /// Whether a request may pass: an unrestricted method always may; a
    /// restricted one only with claims that decoded and whose subject's
    /// stored token equals the presented one verbatim.
    pub fn authenticate(
        method: &HttpMethod,
        decoded: Option<Claims>,
        enc_token: &String,
        db: &Store,
    ) -> (r: bool)
        requires
            db@.wf(),
        ensures
            r == (!spec_restricted(*method) || (decoded is Some && token_matches(
                db@,
                decoded.unwrap()@.sub,
                enc_token@,
            ))),
    {
        if !Authorization::restricted(method) {
            return true;
        }
        match crate::auth::authenticate(decoded, enc_token, db) {
            Ok(_) => true,
            Err(_) => false,
        }
    }
}

} // verus!
